//! Checking what the user typed before a category's executable is made.
use vstd::prelude::*;
use crate::text::{chars_of, lemma_trim_shape, push_str, string_push, trim, trim_spec};

verus! {

/// Characters Windows does not allow in a file name.
pub open spec fn forbidden_in_file_name(c: char) -> bool {
    c == '\\' || c == '/' || c == ':' || c == '*' || c == '?' || c == '"' || c == '<' || c == '>'
        || c == '|'
}

/// Forbidden characters replaced by underscores.
pub open spec fn replace_forbidden(s: Seq<char>) -> Seq<char> {
    s.map_values(|c: char| if forbidden_in_file_name(c) { '_' } else { c })
}

/// A category name made safe as a file name: forbidden characters become
/// underscores, then surrounding whitespace is trimmed.
pub open spec fn sanitize_spec(s: Seq<char>) -> Seq<char> {
    trim_spec(replace_forbidden(s))
}

/// Makes a typed category name usable as a file name.
pub fn sanitize_name(name: &str) -> (r: String)
    ensures
        r@ == sanitize_spec(name@),
{
    let cs = chars_of(name);
    let mut mapped = String::new();
    let mut i: usize = 0;
    while i < cs.len()
        invariant
            cs@ == name@,
            i <= cs@.len(),
            mapped@ =~= replace_forbidden(cs@.take(i as int)),
        decreases cs@.len() - i,
    {
        let c = cs[i];
        let forbidden = c == '\\' || c == '/' || c == ':' || c == '*' || c == '?' || c == '"' || c
            == '<' || c == '>' || c == '|';
        if forbidden {
            string_push(&mut mapped, '_');
        } else {
            string_push(&mut mapped, c);
        }
        i = i + 1;
    }
    assert(cs@.take(cs@.len() as int) =~= cs@);
    trim(mapped.as_str())
}

/// A sanitized name holds no forbidden character, and sanitizing it again
/// changes nothing.
pub proof fn lemma_sanitize_clean(s: Seq<char>)
    ensures
        forall|i: int|
            0 <= i < sanitize_spec(s).len() ==> !forbidden_in_file_name(
                #[trigger] sanitize_spec(s)[i],
            ),
        sanitize_spec(sanitize_spec(s)) == sanitize_spec(s),
{
    let m = replace_forbidden(s);
    let t = sanitize_spec(s);
    lemma_trim_shape(m);
    let (a, b) = choose|a: int, b: int| 0 <= a <= b <= m.len() && trim_spec(m) == m.subrange(a, b);
    assert forall|i: int| 0 <= i < t.len() implies !forbidden_in_file_name(#[trigger] t[i]) by {
        assert(t[i] == m[a + i]);
    }
    assert(replace_forbidden(t) =~= t);
}

/// Why a category cannot be made yet.
#[derive(Debug, Clone, Copy, PartialEq, Eq, Structural)]
pub enum CategoryError {
    /// The name is empty once sanitized.
    MissingName,
    /// No icon image was chosen.
    MissingIcon,
}

impl CategoryError {
    /// The message shown to the user.
    pub fn message(&self) -> (r: &'static str)
        ensures
            r@ == match self {
                CategoryError::MissingName => "Enter a category name."@,
                CategoryError::MissingIcon => "Choose an icon image first."@,
            },
    {
        match self {
            CategoryError::MissingName => "Enter a category name.",
            CategoryError::MissingIcon => "Choose an icon image first.",
        }
    }
}

/// Checks a request to make a category: the sanitized name it will have,
/// or why it cannot be made. The name is checked before the icon.
pub fn check_category(name: &str, icon_chosen: bool) -> (r: Result<String, CategoryError>)
    ensures
        sanitize_spec(name@).len() == 0 ==> r == Err::<String, _>(CategoryError::MissingName),
        sanitize_spec(name@).len() != 0 && !icon_chosen ==> r == Err::<String, _>(
            CategoryError::MissingIcon,
        ),
        sanitize_spec(name@).len() != 0 && icon_chosen ==> (r matches Ok(n) && n@ == sanitize_spec(
            name@,
        )),
{
    let clean = sanitize_name(name);
    if clean.as_str().is_empty() {
        return Err(CategoryError::MissingName);
    }
    if !icon_chosen {
        return Err(CategoryError::MissingIcon);
    }
    Ok(clean)
}

/// The file name of a category's executable: its name with `.exe`.
pub fn category_exe_name(name: &str) -> (r: String)
    ensures
        r@ == name@ + ".exe"@,
{
    let mut s = name.to_owned();
    push_str(&mut s, ".exe");
    s
}

} // verus!
