//! Reading the user's input: recognising its kind and preparing it for the engines.
pub mod assembler;
pub mod checks;
pub mod disassmbler;
pub mod oneshot;

use vstd::prelude::*;

use crate::hexcodec::{hex_decode, is_hex_text};
use crate::input::checks::{join_strs, views};
use crate::text::{contains_char, join, string_of, trim, trim_chars};

verus! {

/// What the input text is taken to be (the classification of the plain
/// `0x` and separator clean-up).
#[derive(Debug, PartialEq, Eq, Structural, Clone, Copy)]
pub enum InputType {
    Hex,
    Assembly,
}

/// Every `0x` removed, scanning from the left.
pub open spec fn remove_0x(s: Seq<char>) -> Seq<char>
    decreases s.len(),
{
    if s.len() == 0 {
        seq![]
    } else if s.len() >= 2 && s[0] == '0' && s[1] == 'x' {
        remove_0x(s.skip(2))
    } else {
        seq![s[0]] + remove_0x(s.skip(1))
    }
}

/// Spaces, commas, semicolons and newlines removed.
pub open spec fn drop_plain_separators(s: Seq<char>) -> Seq<char>
    decreases s.len(),
{
    if s.len() == 0 {
        seq![]
    } else {
        let rest = drop_plain_separators(s.drop_last());
        let c = s.last();
        if c == ' ' || c == ',' || c == ';' || c == '\n' {
            rest
        } else {
            rest.push(c)
        }
    }
}

/// How the concatenated input is classified.
pub open spec fn classify_plain(full: Seq<char>) -> InputType {
    if trim(full).len() == 0 || full.contains(':') {
        InputType::Assembly
    } else if is_hex_text(drop_plain_separators(remove_0x(full))) {
        InputType::Hex
    } else {
        InputType::Assembly
    }
}

/// Classifies the concatenated lines: blank text or text with a `:` is
/// assembly; otherwise it is hex when, once every `0x` and then every space,
/// comma, semicolon and newline is removed, what is left is an even run of
/// hex digits (possibly none).
pub fn identify_type(input: &[&str]) -> (r: InputType)
    ensures
        r == classify_plain(join(views(input@), seq![])),
{
    let nothing: [char; 0] = [];
    assert(nothing@ == Seq::<char>::empty());
    let full = join_strs(input, &nothing);
    let t = trim_chars(&full);
    if t.len() == 0 || contains_char(&full, ':') {
        return InputType::Assembly;
    }
    let mut no0x: Vec<char> = Vec::new();
    let mut i: usize = 0;
    assert(full@.subrange(0, full.len() as int) == full@);
    assert(no0x@ + remove_0x(full@) == remove_0x(full@));
    while i < full.len()
        invariant
            i <= full.len(),
            remove_0x(full@) == no0x@ + remove_0x(full@.subrange(i as int, full.len() as int)),
        decreases full.len() - i,
    {
        let ghost rest = full@.subrange(i as int, full.len() as int);
        if i + 1 < full.len() && full[i] == '0' && full[i + 1] == 'x' {
            assert(rest.skip(2) == full@.subrange(i + 2, full.len() as int));
            i = i + 2;
        } else {
            assert(rest.skip(1) == full@.subrange(i + 1, full.len() as int));
            no0x.push(full[i]);
            assert(remove_0x(full@) == no0x@ + remove_0x(full@.subrange(i + 1, full.len() as int)));
            i = i + 1;
        }
    }
    assert(remove_0x(full@.subrange(full.len() as int, full.len() as int)) == Seq::<char>::empty());
    assert(no0x@ == remove_0x(full@));
    let mut clean: Vec<char> = Vec::new();
    let mut k: usize = 0;
    while k < no0x.len()
        invariant
            k <= no0x.len(),
            clean@ == drop_plain_separators(no0x@.take(k as int)),
        decreases no0x.len() - k,
    {
        let c = no0x[k];
        assert(no0x@.take(k + 1).drop_last() == no0x@.take(k as int));
        if !(c == ' ' || c == ',' || c == ';' || c == '\n') {
            clean.push(c);
        }
        k = k + 1;
    }
    assert(no0x@.take(no0x.len() as int) == no0x@);
    let clean_text = string_of(&clean);
    if hex_decode(clean_text.as_str()).is_ok() {
        InputType::Hex
    } else {
        InputType::Assembly
    }
}

} // verus!
