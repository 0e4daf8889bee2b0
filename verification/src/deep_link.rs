//! Links of the scheme `kitsune://` that hand a download to the application.

use crate::text::{
    before_first, find, find_str, index_of_char, matches_at, occurs_at, prefix, suffix,
};
use vstd::prelude::*;
use vstd::string::*;

verus! {

/// `c` is a double or single quote.
pub open spec fn is_quote(c: char) -> bool {
    c == '"' || c == '\''
}

/// Index of the first character of `s` at or after `from` that is no quote,
/// or `s.len()` if there is none.
pub open spec fn quotes_end(s: Seq<char>, from: int) -> int
    decreases s.len() - from,
{
    if from < 0 || from >= s.len() {
        s.len() as int
    } else if !is_quote(s[from]) {
        from
    } else {
        quotes_end(s, from + 1)
    }
}

/// One past the index of the last character of `s.take(upto)` that is no
/// quote, or `0` if there is none.
pub open spec fn quotes_start(s: Seq<char>, upto: int) -> int
    decreases upto,
{
    if upto <= 0 || upto > s.len() {
        0
    } else if !is_quote(s[upto - 1]) {
        upto
    } else {
        quotes_start(s, upto - 1)
    }
}

/// `s` without the quotes around it.
pub open spec fn unquoted(s: Seq<char>) -> Seq<char> {
    let from = quotes_end(s, 0);
    let to = quotes_start(s, s.len() as int);
    if from <= to {
        s.subrange(from, to)
    } else {
        Seq::empty()
    }
}

/// The part of `s` before the first occurrence of `mark`; all of `s` if
/// there is none.
pub open spec fn before_mark(s: Seq<char>, mark: Seq<char>) -> Seq<char> {
    match find(s, mark) {
        Some(i) => s.take(i),
        None => s,
    }
}

/// The percent-encoded address that an argument carries: the argument,
/// without quotes around it, has to start with `kitsune://`; the address is
/// what follows the first `url=`, up to the next `url=` and up to the first
/// `&`.
pub open spec fn link_target(arg: Seq<char>) -> Option<Seq<char>> {
    let link = unquoted(arg);
    if occurs_at(link, "kitsune://"@, 0) {
        match find(link, "url="@) {
            Some(i) => Some(
                before_first(before_mark(link.skip(i + "url="@.len()), "url="@), '&'),
            ),
            None => None,
        }
    } else {
        None
    }
}

/// The first percent-encoded address that the arguments from index `from`
/// on carry.
pub open spec fn first_target(args: Seq<Seq<char>>, from: int) -> Option<Seq<char>>
    decreases args.len() - from,
{
    if from < 0 || from >= args.len() {
        None
    } else if link_target(args[from]) is Some {
        link_target(args[from])
    } else {
        first_target(args, from + 1)
    }
}

/// `b` is a byte that percent-encoding leaves as it is: a letter or digit of
/// ASCII, or one of `-`, `.`, `_`, `~`.
pub open spec fn is_unreserved(b: u8) -> bool {
    ||| 0x30 <= b <= 0x39
    ||| 0x41 <= b <= 0x5a
    ||| 0x61 <= b <= 0x7a
    ||| b == 0x2d
    ||| b == 0x2e
    ||| b == 0x5f
    ||| b == 0x7e
}

/// The hexadecimal digit of value `d`, in upper case.
pub open spec fn hex_digit(d: int) -> char {
    if d < 10 {
        (0x30 + d) as char
    } else {
        (0x41 + d - 10) as char
    }
}

/// The percent-encoding of one byte.
pub open spec fn encoded_byte(b: u8) -> Seq<char> {
    if is_unreserved(b) {
        seq![b as char]
    } else {
        seq!['%', hex_digit(b as int / 16), hex_digit(b as int % 16)]
    }
}

/// The percent-encoding of a sequence of bytes.
pub open spec fn percent_encoded(bytes: Seq<u8>) -> Seq<char>
    decreases bytes.len(),
{
    if bytes.len() == 0 {
        Seq::empty()
    } else {
        percent_encoded(bytes.drop_last()) + encoded_byte(bytes.last())
    }
}

/// The link that hands the download of `url` to the application.
pub open spec fn link_text(url: Seq<char>) -> Seq<char> {
    "kitsune://download?url="@ + percent_encoded(vstd::utf8::encode_utf8(url))
}

/// `c` is a character that percent-encoding yields: `%`, a letter or digit
/// of ASCII, or one of `-`, `.`, `_`, `~`.
pub open spec fn is_encoded_char(c: char) -> bool {
    ||| c == '%'
    ||| '0' <= c <= '9'
    ||| 'A' <= c <= 'Z'
    ||| 'a' <= c <= 'z'
    ||| c == '-'
    ||| c == '.'
    ||| c == '_'
    ||| c == '~'
}

/// A percent-encoded text is made of the characters that percent-encoding
/// yields, and of no other.
pub proof fn lemma_encoded_chars(bytes: Seq<u8>)
    ensures
        forall|i: int|
            0 <= i < percent_encoded(bytes).len() ==> is_encoded_char(
                #[trigger] percent_encoded(bytes)[i],
            ),
    decreases bytes.len(),
{
    if bytes.len() > 0 {
        lemma_encoded_chars(bytes.drop_last());
        let head = percent_encoded(bytes.drop_last());
        let tail = encoded_byte(bytes.last());
        assert forall|k: int| 0 <= k < tail.len() implies is_encoded_char(#[trigger] tail[k]) by {}
        assert forall|i: int| 0 <= i < percent_encoded(bytes).len() implies is_encoded_char(
            #[trigger] percent_encoded(bytes)[i],
        ) by {
            if i < head.len() {
                assert(percent_encoded(bytes)[i] == head[i]);
            } else {
                assert(percent_encoded(bytes)[i] == tail[i - head.len()]);
            }
        }
    }
}

/// The link that hands a download over carries the percent-encoded address
/// of that download, whatever the address is.
pub proof fn lemma_link_carries_its_target(url: Seq<char>)
    ensures
        link_target(link_text(url)) == Some(percent_encoded(vstd::utf8::encode_utf8(url))),
{
    let encoded = percent_encoded(vstd::utf8::encode_utf8(url));
    let head = "kitsune://download?url="@;
    let link = link_text(url);
    let mark = "url="@;
    reveal_strlit("kitsune://download?url=");
    reveal_strlit("kitsune://");
    reveal_strlit("url=");
    lemma_encoded_chars(vstd::utf8::encode_utf8(url));
    assert(link.len() == 23 + encoded.len());
    assert forall|i: int| 0 <= i < 23 implies link[i] == head[i] by {}
    assert forall|i: int| 23 <= i < link.len() implies link[i] == encoded[i - 23] by {}
    // No quotes stand around the link.
    assert(!is_quote(link[0]));
    assert(!is_quote(link[link.len() - 1])) by {
        if encoded.len() > 0 {
            assert(is_encoded_char(encoded[encoded.len() - 1]));
        }
    }
    assert(unquoted(link) =~= link);
    assert(link.subrange(0, 10) =~= "kitsune://"@);
    // The first `url=` stands at the end of the head.
    assert forall|j: int| 0 <= j < 19 implies !occurs_at(link, mark, j) by {
        if occurs_at(link, mark, j) {
            let window = link.subrange(j, j + 4);
            assert(window[0] == link[j] && window[1] == link[j + 1]);
        }
    }
    assert(occurs_at(link, mark, 19)) by {
        assert(link.subrange(19, 23) =~= mark);
    }
    crate::text::lemma_find_from(link, mark, 0);
    assert(find(link, mark) == Some(19int));
    assert(link.skip(23) =~= encoded);
    // The encoded address holds neither `url=` nor `&`.
    assert forall|j: int| 0 <= j implies !occurs_at(encoded, mark, j) by {
        if occurs_at(encoded, mark, j) {
            let window = encoded.subrange(j, j + 4);
            assert(window[3] == encoded[j + 3]);
            assert(is_encoded_char(encoded[j + 3]));
        }
    }
    crate::text::lemma_find_from(encoded, mark, 0);
    assert(before_mark(encoded, mark) == encoded);
    crate::text::lemma_index_of_from(encoded, '&', 0);
    assert(crate::text::index_of_from(encoded, '&', 0) == encoded.len()) by {
        let at = crate::text::index_of_from(encoded, '&', 0);
        if at < encoded.len() {
            assert(is_encoded_char(encoded[at]));
        }
    }
    assert(before_first(encoded, '&') =~= encoded);
}

/// The text that `urlencoding::decode` makes of a percent-encoded text,
/// `None` where the decoded bytes are no UTF-8.
pub uninterp spec fn percent_decoded(text: Seq<char>) -> Option<Seq<char>>;

/// Percent-encodes a text with `urlencoding::encode`: every byte of its
/// UTF-8 form stays as it is if it is a letter or digit of ASCII or one of
/// `-`, `.`, `_`, `~`, and becomes `%` and two upper-case hexadecimal digits
/// otherwise.
#[verifier::external_body]
fn percent_encode(text: &str) -> (encoded: String)
    ensures
        encoded@ == percent_encoded(text.spec_bytes()),
{
    urlencoding::encode(text).into_owned()
}

/// Decodes a percent-encoded text with `urlencoding::decode`. The result is
/// the one that the name [`percent_decoded`] stands for.
#[verifier::external_body]
fn percent_decode(text: &str) -> (decoded: Option<String>)
    ensures
        match decoded {
            Some(d) => percent_decoded(text@) == Some(d@),
            None => percent_decoded(text@) is None,
        },
{
    urlencoding::decode(text).ok().map(|d| d.into_owned())
}

/// The link that hands the download of `url` to the application.
pub fn deep_link(url: &str) -> (link: String)
    ensures
        link@ == link_text(url@),
{
    let mut link = String::from_str("kitsune://download?url=");
    let encoded = percent_encode(url);
    link.append(encoded.as_str());
    link
}

/// `s` without the quotes around it.
pub fn strip_quotes<'a>(s: &'a str) -> (stripped: &'a str)
    ensures
        stripped@ == unquoted(s@),
{
    let n = s.unicode_len();
    let mut from: usize = 0;
    while from < n && (s.get_char(from) == '"' || s.get_char(from) == '\'')
        invariant
            n == s@.len(),
            from <= n,
            quotes_end(s@, 0) == quotes_end(s@, from as int),
        decreases n - from,
    {
        from = from + 1;
    }
    let mut to: usize = n;
    while to > 0 && (s.get_char(to - 1) == '"' || s.get_char(to - 1) == '\'')
        invariant
            n == s@.len(),
            to <= n,
            quotes_start(s@, n as int) == quotes_start(s@, to as int),
        decreases to,
    {
        to = to - 1;
    }
    if from <= to {
        s.substring_char(from, to)
    } else {
        let empty = s.substring_char(0, 0);
        assert(empty@ =~= Seq::<char>::empty());
        empty
    }
}

/// The percent-encoded address that an argument carries.
pub fn target_of(arg: &str) -> (target: Option<&str>)
    ensures
        match target {
            Some(t) => link_target(arg@) == Some(t@),
            None => link_target(arg@) is None,
        },
{
    let link = strip_quotes(arg);
    let scheme = "kitsune://";
    if link.unicode_len() < scheme.unicode_len() || !matches_at(link, scheme, 0) {
        return None;
    }
    match find_str(link, "url=") {
        None => None,
        Some(i) => {
            let rest = suffix(link, i + "url=".unicode_len());
            let piece = match find_str(rest, "url=") {
                Some(j) => prefix(rest, j),
                None => rest,
            };
            Some(prefix(piece, index_of_char(piece, '&')))
        },
    }
}

/// The address of the download that the arguments of the application ask
/// for: the decoded address of the first argument that carries one, if it
/// decodes.
pub fn extract_url_from_args(args: &Vec<String>) -> (url: Option<String>)
    ensures
        match first_target(args@.map_values(|a: String| a@), 0) {
            Some(target) => match url {
                Some(u) => percent_decoded(target) == Some(u@),
                None => percent_decoded(target) is None,
            },
            None => url is None,
        },
{
    let ghost texts = args@.map_values(|a: String| a@);
    let mut i: usize = 0;
    while i < args.len()
        invariant
            i <= args.len(),
            texts == args@.map_values(|a: String| a@),
            first_target(texts, 0) == first_target(texts, i as int),
        decreases args.len() - i,
    {
        assert(texts[i as int] == args@[i as int]@);
        match target_of(args[i].as_str()) {
            Some(target) => {
                return percent_decode(target);
            },
            None => {},
        }
        i = i + 1;
    }
    None
}

} // verus!
