//! Logical key events and the decoder that turns raw terminal bytes into them.
use vstd::prelude::*;

verus! {

/// One logical key event: a named key or a literal byte.
#[derive(Clone, Copy, PartialEq, Eq, Structural, Debug)]
pub enum EditorKey {
    ArrowLeft,
    ArrowRight,
    ArrowUp,
    ArrowDown,
    Home,
    PageUp,
    Delete,
    End,
    PageDown,
    Return,
    Escape,
    Char(u8),
}

/// The control-key combination for a letter: the low five bits.
pub fn ctrl_key(k: u8) -> (r: u8)
    ensures
        r == (k & 0x1f),
{
    k & 0x1f
}

/// Backspace as the terminal sends it.
pub const BACKSPACE: u8 = 127;

pub open spec fn is_backspace_or_delete_spec(k: EditorKey) -> bool {
    ||| k == EditorKey::Delete
    ||| k == EditorKey::Char(BACKSPACE)
    ||| k == EditorKey::Char(8u8)
}

/// True for the keys that erase the character before the cursor: the Delete
/// key, the backspace byte, and Ctrl-H.
pub fn is_backspace_or_delete(k: &EditorKey) -> (r: bool)
    ensures
        r == is_backspace_or_delete_spec(*k),
{
    match *k {
        EditorKey::Delete => true,
        EditorKey::Char(c) => c == BACKSPACE || c == 8,
        _ => false,
    }
}

/// The fixed table mapping a 2-3 byte sequence after ESC to a key; anything
/// unrecognised decodes to Escape.
pub open spec fn decode_escape_spec(seq: Seq<u8>) -> EditorKey {
    if seq == seq![91u8, 65u8] {
        EditorKey::ArrowUp
    } else if seq == seq![91u8, 66u8] {
        EditorKey::ArrowDown
    } else if seq == seq![91u8, 67u8] {
        EditorKey::ArrowRight
    } else if seq == seq![91u8, 68u8] {
        EditorKey::ArrowLeft
    } else if seq == seq![91u8, 51u8, 126u8] {
        EditorKey::Delete
    } else if seq == seq![91u8, 53u8, 126u8] {
        EditorKey::PageUp
    } else if seq == seq![91u8, 54u8, 126u8] {
        EditorKey::PageDown
    } else if seq == seq![91u8, 49u8, 126u8] || seq == seq![91u8, 55u8, 126u8] || seq == seq![
        91u8,
        72u8,
    ] || seq == seq![79u8, 72u8] {
        EditorKey::Home
    } else if seq == seq![91u8, 52u8, 126u8] || seq == seq![91u8, 56u8, 126u8] || seq == seq![
        91u8,
        70u8,
    ] || seq == seq![79u8, 70u8] {
        EditorKey::End
    } else {
        EditorKey::Escape
    }
}

/// What one keypress decodes to: `first` is the first byte read; `followup`
/// holds the bytes (at most 3) that arrived right after an ESC byte, and is
/// consulted only then.
pub open spec fn decode_key_spec(first: u8, followup: Seq<u8>) -> EditorKey {
    if first == 27u8 {
        decode_escape_spec(followup)
    } else if first == 13u8 {
        EditorKey::Return
    } else {
        EditorKey::Char(first)
    }
}

fn seq2(seq: &Vec<u8>, a: u8, b: u8) -> (r: bool)
    ensures
        r == (seq@ == seq![a, b]),
{
    let r = seq.len() == 2 && seq[0] == a && seq[1] == b;
    proof {
        if r {
            assert(seq@ =~= seq![a, b]);
        } else if seq@ == seq![a, b] {
            assert(seq@.len() == 2);
        }
    }
    r
}

fn seq3(seq: &Vec<u8>, a: u8, b: u8, c: u8) -> (r: bool)
    ensures
        r == (seq@ == seq![a, b, c]),
{
    let r = seq.len() == 3 && seq[0] == a && seq[1] == b && seq[2] == c;
    proof {
        if r {
            assert(seq@ =~= seq![a, b, c]);
        } else if seq@ == seq![a, b, c] {
            assert(seq@.len() == 3);
        }
    }
    r
}

/// Decodes one keypress. A lone ESC byte (empty `followup`) is the Escape
/// key; an ESC followed by a recognised 2-3 byte sequence is the named key;
/// carriage return is Return; any other byte is a literal character.
pub fn decode_key(first: u8, followup: &Vec<u8>) -> (k: EditorKey)
    ensures
        k == decode_key_spec(first, followup@),
{
    if first == 27 {
        if seq2(followup, 91, 65) {
            EditorKey::ArrowUp
        } else if seq2(followup, 91, 66) {
            EditorKey::ArrowDown
        } else if seq2(followup, 91, 67) {
            EditorKey::ArrowRight
        } else if seq2(followup, 91, 68) {
            EditorKey::ArrowLeft
        } else if seq3(followup, 91, 51, 126) {
            EditorKey::Delete
        } else if seq3(followup, 91, 53, 126) {
            EditorKey::PageUp
        } else if seq3(followup, 91, 54, 126) {
            EditorKey::PageDown
        } else if seq3(followup, 91, 49, 126) || seq3(followup, 91, 55, 126) || seq2(
            followup,
            91,
            72,
        ) || seq2(followup, 79, 72) {
            EditorKey::Home
        } else if seq3(followup, 91, 52, 126) || seq3(followup, 91, 56, 126) || seq2(
            followup,
            91,
            70,
        ) || seq2(followup, 79, 70) {
            EditorKey::End
        } else {
            EditorKey::Escape
        }
    } else if first == 13 {
        EditorKey::Return
    } else {
        EditorKey::Char(first)
    }
}

} // verus!
