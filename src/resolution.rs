use vstd::prelude::*;
use crate::input::InputError;

verus! {

/// A screen resolution offered to the user, with a human-readable label.
pub struct Resolution {
    pub width: u32,
    pub height: u32,
    pub description: String,
}

impl Resolution {
    pub fn new(width: u32, height: u32, description: &str) -> (r: Resolution)
        ensures
            r.width == width,
            r.height == height,
            r.description@ == description@,
    {
        Resolution { width, height, description: String::from_str(description) }
    }
}

/// Two characters are equal once ASCII letters are brought to one case.
pub open spec fn chars_eq_ignore_case(a: char, b: char) -> bool {
    ||| a == b
    ||| ('a' <= a <= 'z' && b as u32 + 32 == a as u32)
    ||| ('A' <= a <= 'Z' && a as u32 + 32 == b as u32)
}

/// Two names are equal up to the case of their ASCII letters.
pub open spec fn names_eq_ignore_case(a: Seq<char>, b: Seq<char>) -> bool {
    &&& a.len() == b.len()
    &&& forall|i: int| 0 <= i < a.len() ==> chars_eq_ignore_case(#[trigger] a[i], b[i])
}

/// The supported resolutions: name, width and height, landscape then portrait.
pub open spec fn standard_resolutions() -> Seq<(Seq<char>, u32, u32)> {
    seq![
        (seq!['F', 'H', 'D'], 1920u32, 1080u32),
        (seq!['Q', 'H', 'D'], 2560u32, 1440u32),
        (seq!['4', 'K'], 3840u32, 2160u32),
        (seq!['F', 'H', 'D', ' ', 'V', 'e', 'r', 't', 'i', 'c', 'a', 'l'], 1080u32, 1920u32),
        (seq!['Q', 'H', 'D', ' ', 'V', 'e', 'r', 't', 'i', 'c', 'a', 'l'], 1440u32, 2560u32),
        (seq!['4', 'K', ' ', 'V', 'e', 'r', 't', 'i', 'c', 'a', 'l'], 2160u32, 3840u32),
    ]
}

/// The entry `i` of a table holds the name, width and height of `standard_resolutions()[i]`.
pub open spec fn entry_is_standard(t: Seq<(String, Resolution)>, i: int) -> bool {
    &&& t[i].0@ == standard_resolutions()[i].0
    &&& t[i].1.width == standard_resolutions()[i].1
    &&& t[i].1.height == standard_resolutions()[i].2
}

fn char_eq_ignore_case(a: char, b: char) -> (r: bool)
    ensures
        r == chars_eq_ignore_case(a, b),
{
    let x = a as u32;
    let y = b as u32;
    if x == y {
        true
    } else if 97 <= x && x <= 122 {
        y + 32 == x
    } else if 65 <= x && x <= 90 {
        x + 32 == y
    } else {
        false
    }
}

fn name_eq_ignore_case(a: &str, b: &str) -> (r: bool)
    ensures
        r == names_eq_ignore_case(a@, b@),
{
    let n = a.unicode_len();
    if n != b.unicode_len() {
        return false;
    }
    let mut i: usize = 0;
    while i < n
        invariant
            n == a@.len(),
            n == b@.len(),
            i <= n,
            forall|j: int| 0 <= j < i ==> chars_eq_ignore_case(#[trigger] a@[j], b@[j]),
        decreases n - i,
    {
        if !char_eq_ignore_case(a.get_char(i), b.get_char(i)) {
            return false;
        }
        i = i + 1;
    }
    true
}

/// The table of supported resolutions, keyed by name.
pub fn setup_resolutions() -> (r: Vec<(String, Resolution)>)
    ensures
        r@.len() == standard_resolutions().len(),
        forall|i: int| 0 <= i < r@.len() ==> entry_is_standard(r@, i),
        r@[0].1.description@ == "Full HD (16:9 aspect ratio)"@,
        r@[1].1.description@ == "Quad HD (16:9 aspect ratio)"@,
        r@[2].1.description@ == "4K Ultra HD (16:9 aspect ratio)"@,
        r@[3].1.description@ == "Full HD Vertical (9:16 aspect ratio)"@,
        r@[4].1.description@ == "Quad HD Vertical (9:16 aspect ratio)"@,
        r@[5].1.description@ == "4K Ultra HD Vertical (9:16 aspect ratio)"@,
{
    proof {
        reveal_strlit("FHD");
        reveal_strlit("QHD");
        reveal_strlit("4K");
        reveal_strlit("FHD Vertical");
        reveal_strlit("QHD Vertical");
        reveal_strlit("4K Vertical");
    }
    let mut options: Vec<(String, Resolution)> = Vec::new();
    options.push(
        (String::from_str("FHD"), Resolution::new(1920, 1080, "Full HD (16:9 aspect ratio)")),
    );
    options.push(
        (String::from_str("QHD"), Resolution::new(2560, 1440, "Quad HD (16:9 aspect ratio)")),
    );
    options.push(
        (String::from_str("4K"), Resolution::new(3840, 2160, "4K Ultra HD (16:9 aspect ratio)")),
    );
    options.push(
        (
            String::from_str("FHD Vertical"),
            Resolution::new(1080, 1920, "Full HD Vertical (9:16 aspect ratio)"),
        ),
    );
    options.push(
        (
            String::from_str("QHD Vertical"),
            Resolution::new(1440, 2560, "Quad HD Vertical (9:16 aspect ratio)"),
        ),
    );
    options.push(
        (
            String::from_str("4K Vertical"),
            Resolution::new(2160, 3840, "4K Ultra HD Vertical (9:16 aspect ratio)"),
        ),
    );
    assert forall|i: int| 0 <= i < options@.len() implies entry_is_standard(options@, i) by {
        assert(seq!['F', 'H', 'D'] =~= "FHD"@);
        assert(seq!['Q', 'H', 'D'] =~= "QHD"@);
        assert(seq!['4', 'K'] =~= "4K"@);
        assert(seq!['F', 'H', 'D', ' ', 'V', 'e', 'r', 't', 'i', 'c', 'a', 'l'] =~= "FHD Vertical"@);
        assert(seq!['Q', 'H', 'D', ' ', 'V', 'e', 'r', 't', 'i', 'c', 'a', 'l'] =~= "QHD Vertical"@);
        assert(seq!['4', 'K', ' ', 'V', 'e', 'r', 't', 'i', 'c', 'a', 'l'] =~= "4K Vertical"@);
    }
    options
}

/// Looks `choice` up in `resolutions`, ignoring the case of ASCII letters; the
/// first entry whose name matches is returned.
pub fn validate_resolution_choice<'a>(
    resolutions: &'a Vec<(String, Resolution)>,
    choice: &str,
) -> (r: Result<&'a Resolution, InputError>)
    ensures
        r is Ok <==> exists|i: int|
            0 <= i < resolutions@.len() && names_eq_ignore_case(#[trigger] resolutions@[i].0@, choice@),
        r matches Ok(res) ==> (exists|i: int|
            0 <= i < resolutions@.len() && names_eq_ignore_case(#[trigger] resolutions@[i].0@, choice@)
                && *res == resolutions@[i].1 && forall|j: int|
                0 <= j < i ==> !names_eq_ignore_case(#[trigger] resolutions@[j].0@, choice@)),
        r matches Err(e) ==> (e matches InputError::InvalidResolution { input } && input@ == choice@),
{
    let mut i: usize = 0;
    while i < resolutions.len()
        invariant
            i <= resolutions@.len(),
            forall|j: int| 0 <= j < i ==> !names_eq_ignore_case(#[trigger] resolutions@[j].0@, choice@),
        decreases resolutions@.len() - i,
    {
        if name_eq_ignore_case(resolutions[i].0.as_str(), choice) {
            return Ok(&resolutions[i].1);
        }
        i = i + 1;
    }
    Err(InputError::InvalidResolution { input: String::from_str(choice) })
}

/// At most one supported resolution answers to a given name.
proof fn lemma_standard_names_unambiguous(i: int, j: int, name: Seq<char>)
    requires
        0 <= i < standard_resolutions().len(),
        0 <= j < standard_resolutions().len(),
        names_eq_ignore_case(standard_resolutions()[i].0, name),
        names_eq_ignore_case(standard_resolutions()[j].0, name),
    ensures
        i == j,
{
    let a = standard_resolutions()[i].0;
    let b = standard_resolutions()[j].0;
    assert(chars_eq_ignore_case(a[0], name[0]));
    assert(chars_eq_ignore_case(b[0], name[0]));
}

/// Resolves a resolution name, ignoring the case of ASCII letters, against
/// the supported resolutions.
pub fn resolve_resolution(choice: &str) -> (r: Result<Resolution, InputError>)
    ensures
        r is Ok <==> exists|i: int|
            0 <= i < standard_resolutions().len()
                && names_eq_ignore_case(#[trigger] standard_resolutions()[i].0, choice@),
        forall|i: int|
            0 <= i < standard_resolutions().len() && names_eq_ignore_case(
                #[trigger] standard_resolutions()[i].0,
                choice@,
            ) ==> (r matches Ok(res) && res.width == standard_resolutions()[i].1 && res.height
                == standard_resolutions()[i].2),
        r matches Err(e) ==> (e matches InputError::InvalidResolution { input } && input@ == choice@),
{
    let table = setup_resolutions();
    let found = validate_resolution_choice(&table, choice);
    proof {
        assert forall|i: int| 0 <= i < standard_resolutions().len() implies
            table@[i].0@ == #[trigger] standard_resolutions()[i].0 by {
            assert(entry_is_standard(table@, i));
        }
        if exists|i: int|
            0 <= i < standard_resolutions().len()
                && names_eq_ignore_case(#[trigger] standard_resolutions()[i].0, choice@) {
            let i = choose|i: int|
                0 <= i < standard_resolutions().len()
                    && names_eq_ignore_case(#[trigger] standard_resolutions()[i].0, choice@);
            assert(names_eq_ignore_case(table@[i].0@, choice@));
        }
        if found is Ok {
            let k = choose|k: int|
                0 <= k < table@.len() && names_eq_ignore_case(#[trigger] table@[k].0@, choice@)
                    && *found->Ok_0 == table@[k].1;
            assert(entry_is_standard(table@, k));
            assert(names_eq_ignore_case(standard_resolutions()[k].0, choice@));
            assert forall|i: int|
                0 <= i < standard_resolutions().len() && names_eq_ignore_case(
                    #[trigger] standard_resolutions()[i].0,
                    choice@,
                ) implies i == k by {
                lemma_standard_names_unambiguous(i, k, choice@);
            }
        }
    }
    match found {
        Ok(res) => Ok(
            Resolution { width: res.width, height: res.height, description: res.description.clone() },
        ),
        Err(e) => Err(e),
    }
}

} // verus!
