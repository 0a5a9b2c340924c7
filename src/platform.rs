use vstd::prelude::*;
use crate::resolution::names_eq_ignore_case;

verus! {

/// The folder cannot be shown on this operating system.
pub enum RevealError {
    UnsupportedPlatform { os: String },
}

/// The program that shows a folder in the file manager of operating system `os`.
pub open spec fn reveal_program(os: Seq<char>) -> Option<Seq<char>> {
    if os == "windows"@ {
        Some("explorer"@)
    } else if os == "macos"@ {
        Some("open"@)
    } else if os == "linux"@ {
        Some("xdg-open"@)
    } else {
        None
    }
}

pub(crate) fn same_text(a: &str, b: &str) -> (r: bool)
    ensures
        r == (a@ == b@),
{
    let n = a.unicode_len();
    if n != b.unicode_len() {
        return false;
    }
    let mut i: usize = 0;
    while i < n
        invariant
            n == a@.len(),
            n == b@.len(),
            i <= n,
            forall|j: int| 0 <= j < i ==> #[trigger] a@[j] == b@[j],
        decreases n - i,
    {
        if a.get_char(i) != b.get_char(i) {
            return false;
        }
        i = i + 1;
    }
    assert(a@ =~= b@);
    true
}

/// Chooses the file-manager program for the operating system named `os`.
pub fn reveal_command(os: &str) -> (r: Result<String, RevealError>)
    ensures
        r matches Ok(p) ==> reveal_program(os@) == Some(p@),
        r matches Err(e) ==> (e matches RevealError::UnsupportedPlatform { os: name } && name@ == os@),
        r is Ok <==> reveal_program(os@) is Some,
{
    if same_text(os, "windows") {
        Ok(String::from_str("explorer"))
    } else if same_text(os, "macos") {
        Ok(String::from_str("open"))
    } else if same_text(os, "linux") {
        Ok(String::from_str("xdg-open"))
    } else {
        Err(RevealError::UnsupportedPlatform { os: String::from_str(os) })
    }
}

/// An answer confirms when it is `y` or `Y`; anything else declines.
pub fn confirms(answer: &str) -> (r: bool)
    ensures
        r == names_eq_ignore_case(answer@, seq!['y']),
{
    let n = answer.unicode_len();
    if n != 1 {
        return false;
    }
    let c = answer.get_char(0);
    let r = c == 'y' || c == 'Y';
    assert(r == crate::resolution::chars_eq_ignore_case(answer@[0], 'y'));
    r
}

} // verus!
