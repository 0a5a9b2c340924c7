use vstd::prelude::*;
use crate::resolution::Resolution;

verus! {

/// Relies on `String::push`: the character is appended at the end.
pub assume_specification[ String::push ](s: &mut String, ch: char)
    ensures
        final(s)@ == old(s)@.push(ch),
;

/// The characters that carry the Unicode `White_Space` property.
pub open spec fn is_whitespace_char(c: char) -> bool {
    ||| ('\t' <= c <= '\r')
    ||| c == ' '
    ||| c == '\u{85}'
    ||| c == '\u{A0}'
    ||| c == '\u{1680}'
    ||| ('\u{2000}' <= c <= '\u{200A}')
    ||| c == '\u{2028}'
    ||| c == '\u{2029}'
    ||| c == '\u{202F}'
    ||| c == '\u{205F}'
    ||| c == '\u{3000}'
}

/// A question mark becomes a dash, whitespace an underscore; all else stays.
pub open spec fn sanitize_char(c: char) -> char {
    if c == '?' {
        '-'
    } else if is_whitespace_char(c) {
        '_'
    } else {
        c
    }
}

/// The folder name derived from a search query.
pub open spec fn sanitized(q: Seq<char>) -> Seq<char> {
    q.map_values(|c: char| sanitize_char(c))
}

pub open spec fn digit_chars() -> Seq<char> {
    seq!['0', '1', '2', '3', '4', '5', '6', '7', '8', '9']
}

/// The decimal notation of `n`, without leading zeros.
pub open spec fn decimal(n: nat) -> Seq<char>
    decreases n,
{
    if n < 10 {
        seq![digit_chars()[n as int]]
    } else {
        decimal(n / 10).push(digit_chars()[(n % 10) as int])
    }
}

/// The request URL for an image of `width` by `height` pixels matching `query`.
pub open spec fn image_url_text(width: u32, height: u32, query: Seq<char>) -> Seq<char> {
    "https://source.unsplash.com/random/"@ + decimal(width as nat) + seq!['x'] + decimal(
        height as nat,
    ) + seq!['/', '?'] + query
}

/// The file name `<dir_name>-<stamp>.png`.
pub open spec fn file_name_text(dir_name: Seq<char>, stamp: Seq<char>) -> Seq<char> {
    dir_name + seq!['-'] + stamp + seq!['.', 'p', 'n', 'g']
}

pub(crate) fn is_whitespace(c: char) -> (r: bool)
    ensures
        r == is_whitespace_char(c),
{
    let x = c as u32;
    (9 <= x && x <= 13) || x == 32 || x == 0x85 || x == 0xA0 || x == 0x1680 || (0x2000 <= x && x
        <= 0x200A) || x == 0x2028 || x == 0x2029 || x == 0x202F || x == 0x205F || x == 0x3000
}

/// The folder name for a query: each `?` becomes `-` and each whitespace
/// character `_`.
pub fn sanitize_query(query: &str) -> (r: String)
    ensures
        r@ == sanitized(query@),
{
    let n = query.unicode_len();
    let mut out = String::new();
    let mut i: usize = 0;
    while i < n
        invariant
            n == query@.len(),
            i <= n,
            out@ == sanitized(query@.take(i as int)),
        decreases n - i,
    {
        let c = query.get_char(i);
        let d = if c == '?' {
            '-'
        } else if is_whitespace(c) {
            '_'
        } else {
            c
        };
        out.push(d);
        assert(query@.take(i + 1) =~= query@.take(i as int).push(c));
        assert(sanitized(query@.take(i + 1)) =~= sanitized(query@.take(i as int)).push(d));
        i = i + 1;
    }
    assert(query@.take(n as int) =~= query@);
    out
}

/// Sanitizing a second time changes nothing.
pub proof fn lemma_sanitize_idempotent(q: Seq<char>)
    ensures
        sanitized(sanitized(q)) == sanitized(q),
        forall|i: int|
            0 <= i < sanitized(q).len() ==> #[trigger] sanitized(q)[i] != '?'
                && !is_whitespace_char(sanitized(q)[i]),
{
    assert(sanitized(sanitized(q)) =~= sanitized(q));
}

fn digit(d: u64) -> (c: char)
    requires
        d < 10,
    ensures
        c == digit_chars()[d as int],
{
    match d {
        0 => '0',
        1 => '1',
        2 => '2',
        3 => '3',
        4 => '4',
        5 => '5',
        6 => '6',
        7 => '7',
        8 => '8',
        _ => '9',
    }
}

pub(crate) fn push_decimal(out: &mut String, n: u64)
    ensures
        final(out)@ == old(out)@ + decimal(n as nat),
    decreases n,
{
    if n >= 10 {
        push_decimal(out, n / 10);
    }
    out.push(digit(n % 10));
    assert(old(out)@ + decimal(n as nat) =~= (if n >= 10 {
        old(out)@ + decimal((n / 10) as nat)
    } else {
        old(out)@
    }).push(digit_chars()[(n % 10) as int]));
}

/// The URL that asks the image endpoint for one random image of the given
/// resolution matching `query`; the query is passed on as it is.
pub fn image_url(resolution: &Resolution, query: &str) -> (r: String)
    ensures
        r@ == image_url_text(resolution.width, resolution.height, query@),
{
    let mut url = String::from_str("https://source.unsplash.com/random/");
    push_decimal(&mut url, resolution.width as u64);
    url.push('x');
    push_decimal(&mut url, resolution.height as u64);
    url.push('/');
    url.push('?');
    url.append(query);
    assert(url@ =~= image_url_text(resolution.width, resolution.height, query@));
    url
}

/// The name of one image file: the folder name, a dash, the time stamp and `.png`.
pub fn image_file_name(dir_name: &str, stamp: &str) -> (r: String)
    ensures
        r@ == file_name_text(dir_name@, stamp@),
{
    let mut name = String::from_str(dir_name);
    name.push('-');
    name.append(stamp);
    name.push('.');
    name.push('p');
    name.push('n');
    name.push('g');
    assert(name@ =~= file_name_text(dir_name@, stamp@));
    name
}

/// Within one folder, two different time stamps give two different file names.
pub proof fn lemma_file_names_distinct(dir_name: Seq<char>, s: Seq<char>, t: Seq<char>)
    requires
        s != t,
    ensures
        file_name_text(dir_name, s) != file_name_text(dir_name, t),
{
    let a = file_name_text(dir_name, s);
    let b = file_name_text(dir_name, t);
    let k: int = dir_name.len() as int + 1;
    assert(a.len() == dir_name.len() + 1 + s.len() + 4);
    assert(b.len() == dir_name.len() + 1 + t.len() + 4);
    if a == b {
        assert(s.len() == t.len());
        assert(a.subrange(k, k + s.len() as int) =~= s);
        assert(b.subrange(k, k + t.len() as int) =~= t);
    }
}

} // verus!
