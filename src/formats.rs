//! Which image files are taken up, by file-name extension.

use vstd::prelude::*;
use vstd::string::StringSliceAdditionalSpecFns;

verus! {

/// The ASCII bytes of "jpg".
pub open spec fn ext_jpg() -> Seq<u8> {
    seq![106u8, 112u8, 103u8]
}

/// The ASCII bytes of "png".
pub open spec fn ext_png() -> Seq<u8> {
    seq![112u8, 110u8, 103u8]
}

/// The ASCII bytes of "bmp".
pub open spec fn ext_bmp() -> Seq<u8> {
    seq![98u8, 109u8, 112u8]
}

/// The ASCII bytes of "tif".
pub open spec fn ext_tif() -> Seq<u8> {
    seq![116u8, 105u8, 102u8]
}

/// The accepted extensions, matched exactly and case-sensitively: jpg, png, bmp, tif.
pub open spec fn is_accepted_extension(b: Seq<u8>) -> bool {
    b == ext_jpg() || b == ext_png() || b == ext_bmp() || b == ext_tif()
}

/// Whether a file whose name ends in `.{extension}` is one to repair; an empty
/// `extension` stands for a name without one.
pub fn valid_extension(extension: &str) -> (r: bool)
    ensures
        r == is_accepted_extension(extension.spec_bytes()),
{
    let b: &[u8] = extension.as_bytes();
    if b.len() != 3 {
        proof {
            assert(ext_jpg().len() == 3 && ext_png().len() == 3 && ext_bmp().len() == 3
                && ext_tif().len() == 3);
        }
        return false;
    }
    let c0: u8 = b[0];
    let c1: u8 = b[1];
    let c2: u8 = b[2];
    let r: bool = (c0 == 106u8 && c1 == 112u8 && c2 == 103u8) || (c0 == 112u8 && c1 == 110u8 && c2
        == 103u8) || (c0 == 98u8 && c1 == 109u8 && c2 == 112u8) || (c0 == 116u8 && c1 == 105u8 && c2
        == 102u8);
    proof {
        assert(b@ =~= seq![c0, c1, c2]);
        assert(ext_jpg()[0] == 106u8 && ext_jpg()[1] == 112u8 && ext_jpg()[2] == 103u8);
        assert(ext_png()[0] == 112u8 && ext_png()[1] == 110u8 && ext_png()[2] == 103u8);
        assert(ext_bmp()[0] == 98u8 && ext_bmp()[1] == 109u8 && ext_bmp()[2] == 112u8);
        assert(ext_tif()[0] == 116u8 && ext_tif()[1] == 105u8 && ext_tif()[2] == 102u8);
        if c0 == 106u8 && c1 == 112u8 && c2 == 103u8 {
            assert(b@ =~= ext_jpg());
        }
        if c0 == 112u8 && c1 == 110u8 && c2 == 103u8 {
            assert(b@ =~= ext_png());
        }
        if c0 == 98u8 && c1 == 109u8 && c2 == 112u8 {
            assert(b@ =~= ext_bmp());
        }
        if c0 == 116u8 && c1 == 105u8 && c2 == 102u8 {
            assert(b@ =~= ext_tif());
        }
    }
    r
}

} // verus!
