//! How launches of the same drawer find each other: the names of the
//! kernel objects a running drawer owns, the decision a launch takes from
//! what creating them reported, and the message a launch sends to the
//! resident drawer.
use vstd::prelude::*;
use vstd::utf8::{decode_utf8, encode_utf8, valid_utf8};
use crate::text::{chars_of, string_push, trim, trim_spec};

verus! {

/// The UTF-16 code units of one character.
pub open spec fn utf16_char(c: char) -> Seq<u16> {
    let v = c as u32;
    if v < 0x10000 {
        seq![v as u16]
    } else {
        let u = v - 0x10000;
        seq![(0xd800 + u / 1024) as u16, (0xdc00 + u % 1024) as u16]
    }
}

/// The UTF-16 encoding of a string.
pub open spec fn utf16(s: Seq<char>) -> Seq<u16>
    decreases s.len(),
{
    if s.len() == 0 {
        Seq::empty()
    } else {
        utf16(s.drop_last()) + utf16_char(s.last())
    }
}

/// A string as the NUL-terminated UTF-16 that Win32 `W` functions take.
pub fn wide(s: &str) -> (r: Vec<u16>)
    ensures
        r@ == utf16(s@).push(0),
{
    broadcast use vstd::utf8::char_is_scalar;

    let cs = chars_of(s);
    let mut out: Vec<u16> = Vec::new();
    let mut i: usize = 0;
    while i < cs.len()
        invariant
            cs@ == s@,
            i <= cs@.len(),
            out@ == utf16(cs@.take(i as int)),
        decreases cs@.len() - i,
    {
        let c = cs[i];
        let v = c as u32;
        proof {
            assert(cs@.take(i + 1).drop_last() =~= cs@.take(i as int));
            assert(cs@.take(i + 1).last() == c);
        }
        if v < 0x10000 {
            out.push(v as u16);
        } else {
            let u = v - 0x10000;
            out.push((0xd800 + u / 1024) as u16);
            out.push((0xdc00 + u % 1024) as u16);
        }
        assert(out@ =~= utf16(cs@.take(i + 1)));
        i = i + 1;
    }
    assert(cs@.take(cs@.len() as int) =~= cs@);
    out.push(0);
    out
}

/// The part of an object name that identifies the drawer: the category's
/// name, or `default` for the main drawer, with path separators turned
/// into underscores (a backslash would denote a namespace).
pub open spec fn instance_key(category: Option<Seq<char>>) -> Seq<char> {
    let name = match category {
        Some(c) => c,
        None => "default"@,
    };
    name.map_values(|c: char| if c == '\\' || c == '/' { '_' } else { c })
}

/// The names of the drawer's mutex and of its toggle event.
pub open spec fn object_names_spec(category: Option<Seq<char>>) -> (Seq<u16>, Seq<u16>) {
    (
        utf16("Local\\OnyxLauncher.instance."@ + instance_key(category)).push(0),
        utf16("Local\\OnyxLauncher.signal."@ + instance_key(category)).push(0),
    )
}

/// Appends the characters of `name` with path separators replaced.
fn push_key(s: &mut String, name: &str)
    ensures
        final(s)@ == old(s)@ + name@.map_values(
            |c: char|
                if c == '\\' || c == '/' {
                    '_'
                } else {
                    c
                },
        ),
{
    let cs = chars_of(name);
    let mut i: usize = 0;
    while i < cs.len()
        invariant
            cs@ == name@,
            i <= cs@.len(),
            s@ =~= old(s)@ + cs@.take(i as int).map_values(
                |c: char|
                    if c == '\\' || c == '/' {
                        '_'
                    } else {
                        c
                    },
            ),
        decreases cs@.len() - i,
    {
        let c = cs[i];
        if c == '\\' || c == '/' {
            string_push(s, '_');
        } else {
            string_push(s, c);
        }
        i = i + 1;
    }
    assert(cs@.take(cs@.len() as int) =~= cs@);
}

/// The names of the mutex that marks the drawer for `category` as up, and
/// of the event a later launch pulses to toggle it.
pub fn object_names(category: Option<&str>) -> (r: (Vec<u16>, Vec<u16>))
    ensures
        (r.0@, r.1@) == object_names_spec(crate::config::opt_view(category)),
{
    let name = match category {
        Some(c) => c,
        None => "default",
    };
    let mut m = "Local\\OnyxLauncher.instance.".to_owned();
    push_key(&mut m, name);
    let mut e = "Local\\OnyxLauncher.signal.".to_owned();
    push_key(&mut e, name);
    (wide(m.as_str()), wide(e.as_str()))
}

/// Object names never contain a path separator, whatever the category is
/// called.
pub proof fn lemma_key_has_no_separator(category: Option<Seq<char>>, i: int)
    requires
        0 <= i < instance_key(category).len(),
    ensures
        instance_key(category)[i] != '\\',
        instance_key(category)[i] != '/',
{
}

/// What a launch does, given what creating the named objects reported.
#[derive(Debug, Clone, Copy, PartialEq, Eq, Structural)]
pub enum InstanceOutcome {
    /// An object could not be created: give up and exit.
    Failed,
    /// The drawer is already up: pulse its event so it toggles, then exit.
    SignalRunning,
    /// This launch owns the drawer: keep both objects for the process
    /// lifetime.
    Owner,
}

/// The mutex is created first (its "already exists" status read at once),
/// then the event; a failure of either ends the launch, and a mutex that
/// already existed means another launch owns the drawer.
pub fn instance_outcome(mutex_created: bool, already_running: bool, event_created: bool) -> (r:
    InstanceOutcome)
    ensures
        r == if !mutex_created || !event_created {
            InstanceOutcome::Failed
        } else if already_running {
            InstanceOutcome::SignalRunning
        } else {
            InstanceOutcome::Owner
        },
{
    if !mutex_created {
        return InstanceOutcome::Failed;
    }
    if !event_created {
        return InstanceOutcome::Failed;
    }
    if already_running {
        InstanceOutcome::SignalRunning
    } else {
        InstanceOutcome::Owner
    }
}

/// What `String::from_utf8_lossy` makes of some bytes: the decoded text,
/// with U+FFFD standing in for each invalid sequence.
pub uninterp spec fn utf8_lossy(b: Seq<u8>) -> Seq<char>;

/// Decodes bytes as UTF-8, replacing invalid sequences
/// (`String::from_utf8_lossy`); valid UTF-8 decodes exactly.
#[verifier::external_body]
fn from_utf8_lossy(b: &[u8]) -> (r: String)
    ensures
        r@ == utf8_lossy(b@),
        valid_utf8(b@) ==> r@ == decode_utf8(b@),
{
    String::from_utf8_lossy(b).into_owned()
}

/// The bytes a launch sends to the resident drawer: the category's name,
/// empty for the main drawer.
pub fn wake_message<'a>(category: Option<&'a str>) -> (r: &'a [u8])
    ensures
        r@ == encode_utf8(
            match category {
                Some(c) => c@,
                None => Seq::<char>::empty(),
            },
        ),
{
    match category {
        Some(c) => c.as_bytes(),
        None => {
            let e = "";
            proof {
                reveal_strlit("");
            }
            assert(e@ =~= Seq::<char>::empty());
            e.as_bytes()
        },
    }
}

/// The category a received message asks for: its decoded, trimmed text,
/// with empty text meaning the main drawer.
pub open spec fn parse_wake_spec(b: Seq<u8>) -> Option<Seq<char>> {
    let text = if valid_utf8(b) {
        decode_utf8(b)
    } else {
        utf8_lossy(b)
    };
    let name = trim_spec(text);
    if name.len() == 0 {
        None
    } else {
        Some(name)
    }
}

/// Reads the category a launch asked for out of the bytes it sent.
pub fn parse_wake_message(bytes: &[u8]) -> (r: Option<String>)
    ensures
        crate::drawer::opt_string_view(r) == parse_wake_spec(bytes@),
        valid_utf8(bytes@) ==> utf8_lossy(bytes@) == decode_utf8(bytes@),
{
    let text = from_utf8_lossy(bytes);
    let name = trim(text.as_str());
    if name.as_str().is_empty() {
        None
    } else {
        Some(name)
    }
}

/// A category name without surrounding whitespace reaches the resident
/// drawer intact, inner whitespace included: reading back the message a
/// launch sends for it gives the name itself. The main drawer's empty
/// message reads back as the main drawer.
pub proof fn lemma_wake_round_trip(name: Seq<char>)
    requires
        trim_spec(name) == name,
    ensures
        trim_spec(decode_utf8(encode_utf8(name))) == name,
        trim_spec(decode_utf8(encode_utf8(Seq::<char>::empty()))).len() == 0,
        name.len() > 0 ==> parse_wake_spec(encode_utf8(name)) == Some(name),
        parse_wake_spec(encode_utf8(Seq::<char>::empty())) == None::<Seq<char>>,
{
    vstd::utf8::encode_utf8_valid_utf8(name);
    vstd::utf8::encode_utf8_decode_utf8(name);
    vstd::utf8::encode_utf8_valid_utf8(Seq::<char>::empty());
    vstd::utf8::encode_utf8_decode_utf8(Seq::<char>::empty());
    assert(trim_spec(Seq::<char>::empty()) =~= Seq::<char>::empty());
}

} // verus!
