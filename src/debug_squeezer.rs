//! Bounding a debug form to a given width, with a marker where it was cut.

use vstd::prelude::*;

verus! {

/// The bytes of an ASCII text.
pub open spec fn ascii(s: Seq<char>) -> Seq<u8> {
    s.map_values(|c: char| c as u8)
}

/// Whether `s` begins with the bytes of `prefix`.
pub open spec fn starts_with(s: Seq<u8>, prefix: Seq<char>) -> bool {
    prefix.len() <= s.len() && s.take(prefix.len() as int) == ascii(prefix)
}

/// The debug form `s` bounded to `width` bytes. A form that fits is kept
/// whole. Otherwise it is cut and marked: to nothing and `...` below a width
/// of four; to three bytes and `...` below six; else to exactly `width`
/// bytes ending in ` ... }` where the form opens with `{ `, in ` ...}` where
/// it opens with `{`, and in ` ...` otherwise.
pub open spec fn squeezed(s: Seq<u8>, width: nat) -> Seq<u8> {
    if s.len() <= width {
        s
    } else if width < 4 {
        ascii(seq!['.', '.', '.'])
    } else if width < 6 {
        s.take(3) + ascii(seq!['.', '.', '.'])
    } else if starts_with(s, seq!['{', ' ']) {
        s.take(width - 6) + ascii(seq![' ', '.', '.', '.', ' ', '}'])
    } else if starts_with(s, seq!['{']) {
        s.take(width - 5) + ascii(seq![' ', '.', '.', '.', '}'])
    } else {
        s.take(width - 4) + ascii(seq![' ', '.', '.', '.'])
    }
}

/// Bounds the UTF-8 bytes of a debug form to `squeeze_width` bytes, as
/// [`squeezed`] says.
pub fn squeeze_debug_form(s: Vec<u8>, squeeze_width: usize) -> (r: Vec<u8>)
    ensures
        r@ == squeezed(s@, squeeze_width as nat),
{
    let mut s = s;
    if s.len() > squeeze_width {
        let ghost orig = s@;
        let (width, mut trailing): (usize, Vec<u8>) = if squeeze_width < 4 {
            (0, vec![46u8, 46, 46])
        } else if squeeze_width < 6 {
            (3, vec![46u8, 46, 46])
        } else {
            if s.len() >= 2 && s[0] == 123 && s[1] == 32 {
                (squeeze_width - 6, vec![32u8, 46, 46, 46, 32, 125])
            } else if s[0] == 123 {
                (squeeze_width - 5, vec![32u8, 46, 46, 46, 125])
            } else {
                (squeeze_width - 4, vec![32u8, 46, 46, 46])
            }
        };
        proof {
            assert(ascii(seq!['.', '.', '.']) =~= seq![46u8, 46, 46]);
            assert(ascii(seq![' ', '.', '.', '.', ' ', '}']) =~= seq![32u8, 46, 46, 46, 32, 125]);
            assert(ascii(seq![' ', '.', '.', '.', '}']) =~= seq![32u8, 46, 46, 46, 125]);
            assert(ascii(seq![' ', '.', '.', '.']) =~= seq![32u8, 46, 46, 46]);
            assert(ascii(seq!['{', ' ']) =~= seq![123u8, 32]);
            assert(ascii(seq!['{']) =~= seq![123u8]);
            if orig.len() >= 2 {
                assert(orig.take(2) =~= seq![orig[0], orig[1]]);
            }
            assert(orig.take(1) =~= seq![orig[0]]);
        }
        s.truncate(width);
        s.append(&mut trailing);
        assert(s@ =~= squeezed(orig, squeeze_width as nat));
    }
    s
}

} // verus!
