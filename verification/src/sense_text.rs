//! The words a look is told in.

use vstd::prelude::*;
use crate::text::{push_decimal, push_str, spec_decimal};

verus! {

/// The word for a sense layer number: the four named layers, else `layer n`.
pub open spec fn spec_layer_word(layer: u8) -> Seq<char> {
    if layer == 1 {
        "terrain"@
    } else if layer == 2 {
        "structure"@
    } else if layer == 3 {
        "objects"@
    } else if layer == 4 {
        "creatures"@
    } else {
        "layer "@ + spec_decimal(layer as int)
    }
}

/// The word for a sense layer number.
pub fn layer_word(layer: u8) -> (r: String)
    ensures
        r@ == spec_layer_word(layer),
{
    match layer {
        1 => "terrain".to_owned(),
        2 => "structure".to_owned(),
        3 => "objects".to_owned(),
        4 => "creatures".to_owned(),
        n => {
            let mut s = String::new();
            push_str(&mut s, "layer ");
            push_decimal(&mut s, n as i64);
            proof {
                reveal_strlit("layer ");
                assert(s@ =~= "layer "@ + spec_decimal(n as int));
            }
            s
        },
    }
}

/// The four named layers have four different words, none of which begins like an unnamed
/// layer's `layer n`.
pub proof fn lemma_layer_words_tell_apart(a: u8, b: u8)
    ensures
        1 <= a <= 4 && 1 <= b <= 4 && a != b ==> spec_layer_word(a) != spec_layer_word(b),
        !(1 <= a <= 4) ==> spec_layer_word(a).subrange(0, 6) == "layer "@,
        1 <= a <= 4 ==> spec_layer_word(a)[0] != 'l',
{
    reveal_strlit("terrain");
    reveal_strlit("structure");
    reveal_strlit("objects");
    reveal_strlit("creatures");
    reveal_strlit("layer ");
    if 1 <= a <= 4 && 1 <= b <= 4 && a != b {
        let (x, y) = (spec_layer_word(a), spec_layer_word(b));
        assert(x[0] != y[0] || x[1] != y[1]);
    }
    if !(1 <= a <= 4) {
        assert(spec_layer_word(a).subrange(0, 6) =~= "layer "@);
    }
}

} // verus!
