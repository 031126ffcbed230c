//! The configured key binding: an ordered list of one or two symbolic keys.

use vstd::prelude::*;

verus! {

/// Why a key-binding string was rejected.
#[derive(Clone, Copy, Debug, PartialEq, Eq)]
pub enum KeybindError {
    /// One of the comma-separated names is not a recognized key name.
    UnknownKey,
    /// The list holds zero keys or more than two; the payload is the count.
    BadCount(usize),
}

/// An ordered binding of one or two symbolic keys, immutable once built.
#[derive(Clone, Copy, Debug, PartialEq, Eq)]
pub struct KeyBinding {
    pub first: u32,
    pub second: Option<u32>,
}

/// The binding that a validated key list of length one or two denotes.
pub open spec fn spec_binding_of(keys: Seq<u32>) -> KeyBinding {
    KeyBinding { first: keys[0], second: if keys.len() == 2 { Some(keys[1]) } else { None } }
}

/// A binding is well formed when it holds one or two keys; the list order is
/// the slot order, so success is owed exactly on lengths one and two.
pub fn validate_keybind(keys: &Vec<u32>) -> (r: Result<(), KeybindError>)
    ensures
        r is Ok <==> 1 <= keys@.len() <= 2,
        r matches Err(e) ==> e matches KeybindError::BadCount(n) && n == keys@.len(),
{
    let n = keys.len();
    if n == 1 || n == 2 {
        Ok(())
    } else {
        Err(KeybindError::BadCount(n))
    }
}

/// The byte that separates key names in a binding string.
pub const COMMA: u8 = 44;

/// The comma-separated pieces of a binding string: always at least one
/// piece, commas belong to no piece, and joining the pieces with commas
/// gives the string back.
pub open spec fn split_names(s: Seq<u8>) -> Seq<Seq<u8>>
    decreases s.len(),
{
    if s.len() == 0 {
        seq![Seq::empty()]
    } else if s[0] == COMMA {
        seq![Seq::empty()] + split_names(s.drop_first())
    } else {
        let rest = split_names(s.drop_first());
        seq![seq![s[0]] + rest[0]] + rest.drop_first()
    }
}

/// A split has at least one piece.
pub proof fn lemma_split_names_nonempty(s: Seq<u8>)
    ensures
        split_names(s).len() >= 1,
    decreases s.len(),
{
    if s.len() > 0 {
        lemma_split_names_nonempty(s.drop_first());
    }
}

/// How a split unfolds at its first comma: everything before the first
/// comma is the first piece, and the rest splits on its own; a string
/// without a comma is one piece.
pub proof fn lemma_split_step(s: Seq<u8>, i: int)
    requires
        0 <= i <= s.len(),
        forall|j: int| 0 <= j < i ==> s[j] != COMMA,
        i < s.len() ==> s[i] == COMMA,
    ensures
        i == s.len() ==> split_names(s) =~~= seq![s],
        i < s.len() ==> split_names(s) =~~= seq![s.subrange(0, i)] + split_names(
            s.subrange(i + 1, s.len() as int),
        ),
    decreases s.len(),
{
    lemma_split_names_nonempty(s);
    if s.len() == 0 {
        assert(split_names(s) =~~= seq![s]);
    } else if i == 0 {
        assert(s[0] == COMMA);
        assert(s.drop_first() =~= s.subrange(1, s.len() as int));
        assert(s.subrange(0, 0) =~= Seq::<u8>::empty());
        assert(split_names(s) =~~= seq![s.subrange(0, 0)] + split_names(
            s.subrange(1, s.len() as int),
        ));
    } else {
        let tail = s.drop_first();
        lemma_split_names_nonempty(tail);
        lemma_split_step(tail, i - 1);
        let rest = split_names(tail);
        if i == s.len() {
            assert(rest =~~= seq![tail]);
            assert(seq![s[0]] + rest[0] =~= s);
            assert(split_names(s) =~~= seq![s]);
        } else {
            let tail_rest = split_names(tail.subrange(i, tail.len() as int));
            assert(rest =~~= seq![tail.subrange(0, i - 1)] + tail_rest);
            assert(rest[0] =~= tail.subrange(0, i - 1));
            assert(seq![s[0]] + tail.subrange(0, i - 1) =~= s.subrange(0, i));
            assert(rest.drop_first() =~~= tail_rest);
            assert(tail.subrange(i, tail.len() as int) =~= s.subrange(i + 1, s.len() as int));
            assert(split_names(s) =~~= seq![s.subrange(0, i)] + split_names(
                s.subrange(i + 1, s.len() as int),
            ));
        }
    }
}

/// The built-in default binding string, the two-key chord Control_L,Space.
pub open spec fn default_keybind_bytes() -> Seq<u8> {
    seq![67u8, 111u8, 110u8, 116u8, 114u8, 111u8, 108u8, 95u8, 76u8, 44u8, 83u8, 112u8, 97u8,
        99u8, 101u8]
}

/// The default binding string, used when no binding is configured.
pub fn default_keybind() -> (r: Vec<u8>)
    ensures
        r@ == default_keybind_bytes(),
{
    let mut r: Vec<u8> = Vec::new();
    r.push(67);
    r.push(111);
    r.push(110);
    r.push(116);
    r.push(114);
    r.push(111);
    r.push(108);
    r.push(95);
    r.push(76);
    r.push(44);
    r.push(83);
    r.push(112);
    r.push(97);
    r.push(99);
    r.push(101);
    proof {
        assert(r@ =~= default_keybind_bytes());
    }
    r
}

/// Split a binding string into its comma-separated key names, in order.
/// Turning a name into a key value is the keymap library's table lookup,
/// which stays outside; this function owns the shape of the list.
pub fn split_keybind(input: &Vec<u8>) -> (r: Vec<Vec<u8>>)
    ensures
        r@.map_values(|p: Vec<u8>| p@) == split_names(input@),
        r@.len() >= 1,
{
    let n = input.len();
    let mut out: Vec<Vec<u8>> = Vec::new();
    let ghost mut pieces: Seq<Seq<u8>> = Seq::empty();
    let mut pos: usize = 0;
    proof {
        assert(input@.subrange(0, n as int) =~= input@);
    }
    loop
        invariant_except_break
            split_names(input@) =~~= pieces + split_names(input@.subrange(pos as int, n as int)),
        invariant
            pos <= n,
            n == input@.len(),
            out@.map_values(|p: Vec<u8>| p@) =~= pieces,
        ensures
            out@.map_values(|p: Vec<u8>| p@) =~= split_names(input@),
            out@.len() >= 1,
        decreases n - pos,
    {
        let mut j: usize = pos;
        while j < n && input[j] != COMMA
            invariant
                pos <= j <= n,
                n == input@.len(),
                forall|k: int| pos <= k < j ==> input@[k] != COMMA,
            decreases n - j,
        {
            j = j + 1;
        }
        let mut piece: Vec<u8> = Vec::new();
        let mut b: usize = pos;
        while b < j
            invariant
                pos <= b <= j <= n,
                n == input@.len(),
                piece@.len() == b - pos,
                forall|k: int| 0 <= k < piece@.len() ==> piece@[k] == input@[pos + k],
            decreases j - b,
        {
            piece.push(input[b]);
            b = b + 1;
        }
        let ghost suffix = input@.subrange(pos as int, n as int);
        proof {
            assert(piece@ =~= input@.subrange(pos as int, j as int));
            lemma_split_step(suffix, j - pos);
            assert(suffix.subrange(0, j - pos) =~= input@.subrange(pos as int, j as int));
            if (j as int) - (pos as int) < suffix.len() {
                assert(suffix.subrange(j - pos + 1, suffix.len() as int) =~= input@.subrange(
                    j as int + 1,
                    n as int,
                ));
            }
        }
        out.push(piece);
        proof {
            pieces = pieces + seq![piece@];
            assert(out@.map_values(|p: Vec<u8>| p@) =~= pieces);
        }
        if j == n {
            proof {
                assert(split_names(input@) =~~= pieces);
            }
            break;
        }
        pos = j + 1;
    }
    out
}

/// Whether the keymap library recognized every name: the table answers 0
/// for an unrecognized one, and a binding may hold no such key.
pub fn check_keysyms(syms: &Vec<u32>) -> (r: Result<(), KeybindError>)
    ensures
        r is Ok <==> (forall|i: int| 0 <= i < syms@.len() ==> syms@[i] != 0),
        r matches Err(e) ==> e == KeybindError::UnknownKey,
{
    let mut i: usize = 0;
    while i < syms.len()
        invariant
            i <= syms@.len(),
            forall|k: int| 0 <= k < i ==> syms@[k] != 0,
        decreases syms@.len() - i,
    {
        if syms[i] == 0 {
            return Err(KeybindError::UnknownKey);
        }
        i = i + 1;
    }
    Ok(())
}

/// The whole configuration step for the chord, over the looked-up key
/// values of the configured names: success is owed exactly when every name
/// was recognized and there are one or two of them.
pub fn build_binding(syms: &Vec<u32>) -> (r: Result<KeyBinding, KeybindError>)
    ensures
        r is Ok <==> ((forall|i: int| 0 <= i < syms@.len() ==> syms@[i] != 0) && 1 <= syms@.len()
            <= 2),
        r matches Ok(b) ==> b == spec_binding_of(syms@),
        r == Err::<KeyBinding, KeybindError>(KeybindError::UnknownKey) <==> (exists|i: int|
            0 <= i < syms@.len() && syms@[i] == 0),
        r matches Err(e) ==> (e == KeybindError::UnknownKey || (e matches KeybindError::BadCount(n)
            && n == syms@.len() && !(1 <= syms@.len() <= 2))),
{
    match check_keysyms(syms) {
        Err(e) => Err(e),
        Ok(()) => KeyBinding::from_keysyms(syms),
    }
}

impl KeyBinding {
    /// Build the binding from a validated key list: the first element fills
    /// the first slot, a second element, if present, the second slot.
    pub fn from_keysyms(keys: &Vec<u32>) -> (r: Result<KeyBinding, KeybindError>)
        ensures
            1 <= keys@.len() <= 2 ==> r == Ok::<KeyBinding, KeybindError>(spec_binding_of(keys@)),
            !(1 <= keys@.len() <= 2) ==> (r matches Err(e) && e matches KeybindError::BadCount(n)
                && n == keys@.len()),
    {
        match validate_keybind(keys) {
            Err(e) => Err(e),
            Ok(()) => {
                let second: Option<u32> = if keys.len() == 2 { Some(keys[1]) } else { None };
                Ok(KeyBinding { first: keys[0], second })
            },
        }
    }
}

} // verus!
