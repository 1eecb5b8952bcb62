//! Working colour spaces and the reference illuminants they are defined under.
use vstd::prelude::*;
use vstd::string::StringSliceAdditionalSpecFns;

verus! {

/// A working RGB colour space.
#[derive(Clone, Copy, Debug, PartialEq, Eq, Structural)]
pub enum Gamut {
    Srgb,
    ProPhotoRgb,
    Aces2065_1,
    Rec2020,
    Ergb,
    Xyz,
    DciP3,
}

/// A standard illuminant: the daylight series at three colour temperatures,
/// and the equal-energy spectrum.
#[derive(Clone, Copy, Debug, PartialEq, Eq, Structural)]
pub enum Illuminant {
    D65,
    D50,
    D60,
    E,
}

/// The identifier of a gamut, as ASCII bytes: `srgb`, `pro_photo_rgb`,
/// `aces2065_1`, `rec2020`, `ergb`, `xyz`, `dci_p3`.
pub open spec fn gamut_id(g: Gamut) -> Seq<u8> {
    match g {
        Gamut::Srgb => seq![115u8, 114, 103, 98],
        Gamut::ProPhotoRgb => seq![112u8, 114, 111, 95, 112, 104, 111, 116, 111, 95, 114, 103, 98],
        Gamut::Aces2065_1 => seq![97u8, 99, 101, 115, 50, 48, 54, 53, 95, 49],
        Gamut::Rec2020 => seq![114u8, 101, 99, 50, 48, 50, 48],
        Gamut::Ergb => seq![101u8, 114, 103, 98],
        Gamut::Xyz => seq![120u8, 121, 122],
        Gamut::DciP3 => seq![100u8, 99, 105, 95, 112, 51],
    }
}

/// The gamut that an identifier names, if it names one.
pub open spec fn gamut_of_id(id: Seq<u8>) -> Option<Gamut> {
    if id == gamut_id(Gamut::Srgb) {
        Some(Gamut::Srgb)
    } else if id == gamut_id(Gamut::ProPhotoRgb) {
        Some(Gamut::ProPhotoRgb)
    } else if id == gamut_id(Gamut::Aces2065_1) {
        Some(Gamut::Aces2065_1)
    } else if id == gamut_id(Gamut::Rec2020) {
        Some(Gamut::Rec2020)
    } else if id == gamut_id(Gamut::Ergb) {
        Some(Gamut::Ergb)
    } else if id == gamut_id(Gamut::Xyz) {
        Some(Gamut::Xyz)
    } else if id == gamut_id(Gamut::DciP3) {
        Some(Gamut::DciP3)
    } else {
        None
    }
}

/// The illuminant under which a gamut's white point is defined.
pub open spec fn illuminant_of(g: Gamut) -> Illuminant {
    match g {
        Gamut::Srgb | Gamut::Rec2020 | Gamut::DciP3 => Illuminant::D65,
        Gamut::ProPhotoRgb => Illuminant::D50,
        Gamut::Aces2065_1 => Illuminant::D60,
        Gamut::Ergb | Gamut::Xyz => Illuminant::E,
    }
}

impl Gamut {
    /// The illuminant under which this gamut's white point is defined.
    pub fn illuminant(self) -> (r: Illuminant)
        ensures
            r == illuminant_of(self),
    {
        match self {
            Gamut::Srgb | Gamut::Rec2020 | Gamut::DciP3 => Illuminant::D65,
            Gamut::ProPhotoRgb => Illuminant::D50,
            Gamut::Aces2065_1 => Illuminant::D60,
            Gamut::Ergb | Gamut::Xyz => Illuminant::E,
        }
    }

    /// The identifier of this gamut, as ASCII bytes.
    pub fn id(self) -> (r: Vec<u8>)
        ensures
            r@ == gamut_id(self),
    {
        let r = match self {
            Gamut::Srgb => vec![115u8, 114, 103, 98],
            Gamut::ProPhotoRgb => vec![
                112u8,
                114,
                111,
                95,
                112,
                104,
                111,
                116,
                111,
                95,
                114,
                103,
                98,
            ],
            Gamut::Aces2065_1 => vec![97u8, 99, 101, 115, 50, 48, 54, 53, 95, 49],
            Gamut::Rec2020 => vec![114u8, 101, 99, 50, 48, 50, 48],
            Gamut::Ergb => vec![101u8, 114, 103, 98],
            Gamut::Xyz => vec![120u8, 121, 122],
            Gamut::DciP3 => vec![100u8, 99, 105, 95, 112, 51],
        };
        assert(r@ =~= gamut_id(self));
        r
    }
}

/// Whether two byte strings are equal.
fn same_bytes(a: &[u8], b: &[u8]) -> (r: bool)
    ensures
        r == (a@ == b@),
{
    if a.len() != b.len() {
        return false;
    }
    let mut i: usize = 0;
    while i < a.len()
        invariant
            a@.len() == b@.len(),
            i <= a@.len(),
            forall|m: int| 0 <= m < i ==> a@[m] == b@[m],
        decreases a@.len() - i,
    {
        if a[i] != b[i] {
            return false;
        }
        i += 1;
    }
    assert(a@ =~= b@);
    true
}

/// Whether `id` is the identifier of `g`.
fn names(id: &[u8], g: Gamut) -> (r: bool)
    ensures
        r == (id@ == gamut_id(g)),
{
    let expected = g.id();
    same_bytes(id, expected.as_slice())
}

/// Reads a gamut from its identifier. Any other text names no gamut.
pub fn parse_gamut(gamut: &str) -> (r: Option<Gamut>)
    ensures
        r == gamut_of_id(gamut.spec_bytes()),
{
    let id = gamut.as_bytes();
    if names(id, Gamut::Srgb) {
        Some(Gamut::Srgb)
    } else if names(id, Gamut::ProPhotoRgb) {
        Some(Gamut::ProPhotoRgb)
    } else if names(id, Gamut::Aces2065_1) {
        Some(Gamut::Aces2065_1)
    } else if names(id, Gamut::Rec2020) {
        Some(Gamut::Rec2020)
    } else if names(id, Gamut::Ergb) {
        Some(Gamut::Ergb)
    } else if names(id, Gamut::Xyz) {
        Some(Gamut::Xyz)
    } else if names(id, Gamut::DciP3) {
        Some(Gamut::DciP3)
    } else {
        None
    }
}

/// Every gamut is read back from its own identifier: no two gamuts share one.
pub proof fn id_names_its_gamut(g: Gamut)
    ensures
        gamut_of_id(gamut_id(g)) == Some(g),
{
    assert(gamut_id(Gamut::Srgb).len() == 4);
    assert(gamut_id(Gamut::ProPhotoRgb).len() == 13);
    assert(gamut_id(Gamut::Aces2065_1).len() == 10);
    assert(gamut_id(Gamut::Rec2020).len() == 7);
    assert(gamut_id(Gamut::Ergb).len() == 4);
    assert(gamut_id(Gamut::Xyz).len() == 3);
    assert(gamut_id(Gamut::DciP3).len() == 6);
    assert(gamut_id(Gamut::Srgb)[0] == 115u8);
    assert(gamut_id(Gamut::Ergb)[0] == 101u8);
}

} // verus!
