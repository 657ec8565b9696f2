//! Shading dictionaries: smooth colour transitions, of the seven types that PDF defines.
use vstd::prelude::*;
use crate::PdfError;
use crate::objects::dictionary::{PdfDictionaryObject, entry_appended, has_key, keys_of, lemma_absent_key};
use crate::objects::number::{NumberType, PdfNumberObject};
use crate::objects::pdf_array::PdfArrayObject;
use crate::objects::pdf_object::{PdfObject, is_bool};

verus! {

#[derive(Debug, Clone, Copy, PartialEq, Eq, Structural)]
pub enum ShadingType {
    Function,
    Axial,
    Radial,
    FreeFormGouraud,
    LatticeGouraud,
    CoonsPatch,
    TensorPatch,
}

/// The number of a shading type, 1 to 7 in the order of the variants.
pub open spec fn shading_type_value(t: ShadingType) -> i64 {
    match t {
        ShadingType::Function => 1,
        ShadingType::Axial => 2,
        ShadingType::Radial => 3,
        ShadingType::FreeFormGouraud => 4,
        ShadingType::LatticeGouraud => 5,
        ShadingType::CoonsPatch => 6,
        ShadingType::TensorPatch => 7,
    }
}

impl ShadingType {
    pub fn value(&self) -> (v: i64)
        ensures
            v == shading_type_value(*self),
    {
        match self {
            ShadingType::Function => 1,
            ShadingType::Axial => 2,
            ShadingType::Radial => 3,
            ShadingType::FreeFormGouraud => 4,
            ShadingType::LatticeGouraud => 5,
            ShadingType::CoonsPatch => 6,
            ShadingType::TensorPatch => 7,
        }
    }
}

/// The integer object `i`.
pub open spec fn int_object(i: i64) -> PdfObject {
    PdfObject::Number(PdfNumberObject { value: NumberType::Integer(i) })
}

/// A shading: the entries that every type of shading may have.
pub trait ShadingBase: Sized {
    /// The shading dictionary.
    spec fn dictionary(&self) -> PdfDictionaryObject;

    fn dict_mut(&mut self) -> (d: &mut PdfDictionaryObject)
        ensures
            *d == old(self).dictionary(),
            final(self).dictionary() == *final(d),
    ;

    /// Adds the background colour `/Background`.
    fn with_background(self, background: PdfObject) -> (r: Result<Self, PdfError>)
        ensures
            has_key(self.dictionary().values@, "Background"@) <==> r is Err,
            r matches Ok(s) ==> entry_appended(
                self.dictionary(),
                s.dictionary(),
                "Background"@,
                |o: PdfObject| o == background,
            ),
    {
        let mut s = self;
        match s.dict_mut().add("Background", background) {
            Ok(()) => Ok(s),
            Err(e) => Err(e),
        }
    }

    /// Adds the bounding box `/BBox`.
    fn with_bbox(self, bbox: PdfObject) -> (r: Result<Self, PdfError>)
        ensures
            has_key(self.dictionary().values@, "BBox"@) <==> r is Err,
            r matches Ok(s) ==> entry_appended(self.dictionary(), s.dictionary(), "BBox"@, |o: PdfObject| o == bbox),
    {
        let mut s = self;
        match s.dict_mut().add("BBox", bbox) {
            Ok(()) => Ok(s),
            Err(e) => Err(e),
        }
    }

    /// Adds the anti-aliasing flag `/AntiAlias`.
    fn with_anti_alias(self, value: bool) -> (r: Result<Self, PdfError>)
        ensures
            has_key(self.dictionary().values@, "AntiAlias"@) <==> r is Err,
            r matches Ok(s) ==> entry_appended(
                self.dictionary(),
                s.dictionary(),
                "AntiAlias"@,
                |o: PdfObject| is_bool(o, value),
            ),
    {
        let mut s = self;
        match s.dict_mut().add("AntiAlias", PdfObject::Boolean(crate::objects::boolean::PdfBooleanObject::new(value))) {
            Ok(()) => Ok(s),
            Err(e) => Err(e),
        }
    }
}

/// The entries of `d` are, in order, the keys and values `e`.
pub open spec fn has_entries(d: PdfDictionaryObject, e: Seq<(Seq<char>, PdfObject)>) -> bool {
    &&& d.values@.len() == e.len()
    &&& forall|i: int| 0 <= i < e.len() ==> (#[trigger] d.values@[i]).0.value@ == e[i].0 && d.values@[i].1 == e[i].1
}

/// The first entries of every shading: `/ShadingType` and `/ColorSpace`.
pub open spec fn shading_head(t: ShadingType, color_space: PdfObject) -> Seq<(Seq<char>, PdfObject)> {
    seq![("ShadingType"@, int_object(shading_type_value(t))), ("ColorSpace"@, color_space)]
}

/// A new shading dictionary: well formed, with no object number, and the entries `e`.
pub open spec fn fresh_shading(d: PdfDictionaryObject, e: Seq<(Seq<char>, PdfObject)>) -> bool {
    &&& has_entries(d, e)
    &&& d.wf()
    &&& d.object_number is None
    &&& d.generation_number is None
}

proof fn lemma_fresh_key(d: PdfDictionaryObject, e: Seq<(Seq<char>, PdfObject)>, key: Seq<char>)
    requires
        has_entries(d, e),
        forall|i: int| 0 <= i < e.len() ==> #[trigger] e[i].0 != key,
    ensures
        !has_key(d.values@, key),
{
    assert forall|i: int| 0 <= i < keys_of(d.values@).len() implies #[trigger] keys_of(d.values@)[i] != key by {
        assert(d.values@[i].0.value@ == e[i].0);
    }
    lemma_absent_key(d.values@, key);
}

/// Appends the entry `key`, `value` to a dictionary whose entries are `e` and that lacks `key`.
fn extend(d: PdfDictionaryObject, Ghost(e): Ghost<Seq<(Seq<char>, PdfObject)>>, key: &str, value: PdfObject) -> (r:
    PdfDictionaryObject)
    requires
        fresh_shading(d, e),
        forall|i: int| 0 <= i < e.len() ==> #[trigger] e[i].0 != key@,
    ensures
        fresh_shading(r, e.push((key@, value))),
{
    proof {
        lemma_fresh_key(d, e, key@);
    }
    let mut d = d;
    let ghost before = d.values@;
    let _ = d.add(key, value);
    assert forall|i: int| 0 <= i < e.len() + 1 implies (#[trigger] d.values@[i]).0.value@ == e.push((key@, value))[i].0
        && d.values@[i].1 == e.push((key@, value))[i].1 by {
        if i < e.len() {
            assert(d.values@[i] == d.values@.subrange(0, before.len() as int)[i]);
        }
    }
    d
}

/// A shading dictionary with `/ShadingType` and `/ColorSpace`.
fn make_shading(color_space: PdfObject, shading_type: ShadingType) -> (d: PdfDictionaryObject)
    ensures
        fresh_shading(d, shading_head(shading_type, color_space)),
{
    let d = PdfDictionaryObject::new();
    let ghost e0 = Seq::<(Seq<char>, PdfObject)>::empty();
    assert(fresh_shading(d, e0));
    let d = extend(
        d,
        Ghost(e0),
        "ShadingType",
        PdfObject::Number(PdfNumberObject { value: NumberType::Integer(shading_type.value()) }),
    );
    proof {
        reveal_strlit("ShadingType");
        reveal_strlit("ColorSpace");
    }
    let ghost e1 = e0.push(("ShadingType"@, int_object(shading_type_value(shading_type))));
    assert("ShadingType"@.len() != "ColorSpace"@.len());
    assert(e1[0].0 == "ShadingType"@);
    let d = extend(d, Ghost(e1), "ColorSpace", color_space);
    assert(e1.push(("ColorSpace"@, color_space)) =~= shading_head(shading_type, color_space));
    d
}

/// The entries of a mesh shading of type 4 or 5: after the shading type and colour space,
/// `/BitsPerCordinate` (so spelled) holding the bits per component and `/BitsPerComponent`
/// holding the bits per coordinate, then `last_key` with `last`, then `/Decode`.
pub open spec fn mesh_entries(
    t: ShadingType,
    color_space: PdfObject,
    bits_per_coordinate: u64,
    bits_per_component: u64,
    last_key: Seq<char>,
    last: u64,
    decode: PdfArrayObject,
) -> Seq<(Seq<char>, PdfObject)> {
    shading_head(t, color_space) + seq![
        ("BitsPerCordinate"@, int_object(#[verifier::truncate] (bits_per_component as i64))),
        ("BitsPerComponent"@, int_object(#[verifier::truncate] (bits_per_coordinate as i64))),
        (last_key, int_object(#[verifier::truncate] (last as i64))),
        ("Decode"@, PdfObject::Array(decode)),
    ]
}

/// The entries of a patch shading of type 6 or 7.
pub open spec fn patch_entries(
    t: ShadingType,
    color_space: PdfObject,
    bits_per_coordinate: i64,
    bits_per_component: i64,
    bits_per_flag: i64,
) -> Seq<(Seq<char>, PdfObject)> {
    shading_head(t, color_space) + seq![
        ("BitsPerCoordinate"@, int_object(bits_per_coordinate)),
        ("BitsPerComponent"@, int_object(bits_per_component)),
        ("BitsPerFlag"@, int_object(bits_per_flag)),
    ]
}

fn make_mesh_shading(
    color_space: PdfObject,
    shading_type: ShadingType,
    bits_per_coordinate: u64,
    bits_per_component: u64,
    last_key: &str,
    last: u64,
    decode: PdfArrayObject,
) -> (d: PdfDictionaryObject)
    requires
        last_key@ == "BitsPerFlag"@ || last_key@ == "VerticesPerRow"@,
    ensures
        fresh_shading(
            d,
            mesh_entries(shading_type, color_space, bits_per_coordinate, bits_per_component, last_key@, last, decode),
        ),
{
    proof {
        reveal_strlit("ShadingType");
        reveal_strlit("ColorSpace");
        reveal_strlit("BitsPerCordinate");
        reveal_strlit("BitsPerComponent");
        reveal_strlit("BitsPerFlag");
        reveal_strlit("VerticesPerRow");
        reveal_strlit("Decode");
        assert("BitsPerCordinate"@[10] != "BitsPerComponent"@[10]);
        assert("BitsPerFlag"@[0] != "ShadingType"@[0]);
        assert("ShadingType"@.len() == 11 && "ColorSpace"@.len() == 10 && "BitsPerCordinate"@.len() == 16);
        assert("BitsPerComponent"@.len() == 16 && "BitsPerFlag"@.len() == 11 && "VerticesPerRow"@.len() == 14);
        assert("Decode"@.len() == 6);
    }
    let ghost e0 = shading_head(shading_type, color_space);
    let d = make_shading(color_space, shading_type);
    let d = extend(d, Ghost(e0), "BitsPerCordinate", PdfObject::from(bits_per_component));
    let ghost e1 = e0.push(("BitsPerCordinate"@, int_object(#[verifier::truncate] (bits_per_component as i64))));
    let d = extend(d, Ghost(e1), "BitsPerComponent", PdfObject::from(bits_per_coordinate));
    let ghost e2 = e1.push(("BitsPerComponent"@, int_object(#[verifier::truncate] (bits_per_coordinate as i64))));
    let d = extend(d, Ghost(e2), last_key, PdfObject::from(last));
    let ghost e3 = e2.push((last_key@, int_object(#[verifier::truncate] (last as i64))));
    let d = extend(d, Ghost(e3), "Decode", PdfObject::Array(decode));
    assert(e3.push(("Decode"@, PdfObject::Array(decode))) =~= mesh_entries(
        shading_type,
        color_space,
        bits_per_coordinate,
        bits_per_component,
        last_key@,
        last,
        decode,
    ));
    d
}

fn make_patch_shading(
    color_space: PdfObject,
    shading_type: ShadingType,
    bits_per_coordinate: i64,
    bits_per_component: i64,
    bits_per_flag: i64,
) -> (d: PdfDictionaryObject)
    ensures
        fresh_shading(d, patch_entries(shading_type, color_space, bits_per_coordinate, bits_per_component, bits_per_flag)),
{
    proof {
        reveal_strlit("ShadingType");
        reveal_strlit("ColorSpace");
        reveal_strlit("BitsPerCoordinate");
        reveal_strlit("BitsPerComponent");
        reveal_strlit("BitsPerFlag");
        assert("BitsPerFlag"@[0] != "ShadingType"@[0]);
        assert("ShadingType"@.len() == 11 && "ColorSpace"@.len() == 10 && "BitsPerCoordinate"@.len() == 17);
        assert("BitsPerComponent"@.len() == 16 && "BitsPerFlag"@.len() == 11);
    }
    let ghost e0 = shading_head(shading_type, color_space);
    let d = make_shading(color_space, shading_type);
    let d = extend(d, Ghost(e0), "BitsPerCoordinate", PdfObject::from(bits_per_coordinate));
    let ghost e1 = e0.push(("BitsPerCoordinate"@, int_object(bits_per_coordinate)));
    let d = extend(d, Ghost(e1), "BitsPerComponent", PdfObject::from(bits_per_component));
    let ghost e2 = e1.push(("BitsPerComponent"@, int_object(bits_per_component)));
    let d = extend(d, Ghost(e2), "BitsPerFlag", PdfObject::from(bits_per_flag));
    assert(e2.push(("BitsPerFlag"@, int_object(bits_per_flag))) =~= patch_entries(
        shading_type,
        color_space,
        bits_per_coordinate,
        bits_per_component,
        bits_per_flag,
    ));
    d
}


/// A function-based shading (type 1).
pub struct Shading1Function {
    dictionary: PdfDictionaryObject,
}

impl ShadingBase for Shading1Function {
    closed spec fn dictionary(&self) -> PdfDictionaryObject {
        self.dictionary
    }

    fn dict_mut(&mut self) -> (d: &mut PdfDictionaryObject) {
        &mut self.dictionary
    }
}

impl Shading1Function {
    /// The shading type and colour space, then `/Function`.
    pub fn new(color_space: PdfObject, function: PdfDictionaryObject) -> (r: Result<Self, PdfError>)
        ensures
            r matches Ok(s) && fresh_shading(
                s.dictionary(),
                shading_head(ShadingType::Function, color_space).push(("Function"@, PdfObject::Dictionary(function))),
            ),
    {
        let d = make_shading(color_space, ShadingType::Function);
        proof {
            reveal_strlit("ShadingType");
            reveal_strlit("ColorSpace");
            reveal_strlit("Function");
            assert("Function"@.len() == 8 && "ShadingType"@.len() == 11 && "ColorSpace"@.len() == 10);
        }
        let dictionary = extend(
            d,
            Ghost(shading_head(ShadingType::Function, color_space)),
            "Function",
            PdfObject::Dictionary(function),
        );
        Ok(Self { dictionary })
    }

    /// Adds the domain `/Domain`.
    pub fn with_domain(self, domain: PdfArrayObject) -> (r: Result<Self, PdfError>)
        ensures
            has_key(self.dictionary().values@, "Domain"@) <==> r is Err,
            r matches Ok(s) ==> entry_appended(
                self.dictionary(),
                s.dictionary(),
                "Domain"@,
                |o: PdfObject| o == PdfObject::Array(domain),
            ),
    {
        let mut s = self;
        match s.dictionary.add("Domain", PdfObject::Array(domain)) {
            Ok(()) => Ok(s),
            Err(e) => Err(e),
        }
    }

    /// Adds the matrix `/Matrix`.
    pub fn with_matrix(self, matrix: PdfArrayObject) -> (r: Result<Self, PdfError>)
        ensures
            has_key(self.dictionary().values@, "Matrix"@) <==> r is Err,
            r matches Ok(s) ==> entry_appended(
                self.dictionary(),
                s.dictionary(),
                "Matrix"@,
                |o: PdfObject| o == PdfObject::Array(matrix),
            ),
    {
        let mut s = self;
        match s.dictionary.add("Matrix", PdfObject::Array(matrix)) {
            Ok(()) => Ok(s),
            Err(e) => Err(e),
        }
    }
}

/// An axial shading (type 2).
pub struct Shading2Axial {
    dictionary: PdfDictionaryObject,
}

impl ShadingBase for Shading2Axial {
    closed spec fn dictionary(&self) -> PdfDictionaryObject {
        self.dictionary
    }

    fn dict_mut(&mut self) -> (d: &mut PdfDictionaryObject) {
        &mut self.dictionary
    }
}

impl Shading2Axial {
    /// The shading type and colour space, then `/Coords` and `/Function`.
    pub fn new(color_space: PdfObject, coords: PdfArrayObject, function: PdfDictionaryObject) -> (r: Result<
        Self,
        PdfError,
    >)
        ensures
            r matches Ok(s) && fresh_shading(
                s.dictionary(),
                shading_head(ShadingType::Axial, color_space).push(("Coords"@, PdfObject::Array(coords))).push(
                    ("Function"@, PdfObject::Dictionary(function)),
                ),
            ),
    {
        let d = make_shading(color_space, ShadingType::Axial);
        proof {
            reveal_strlit("ShadingType");
            reveal_strlit("ColorSpace");
            reveal_strlit("Function");
            reveal_strlit("Coords");
            assert("Function"@.len() == 8 && "ShadingType"@.len() == 11 && "ColorSpace"@.len() == 10);
            assert("Coords"@.len() == 6);
        }
        let ghost e0 = shading_head(ShadingType::Axial, color_space);
        let d = extend(d, Ghost(e0), "Coords", PdfObject::Array(coords));
        let dictionary = extend(
            d,
            Ghost(e0.push(("Coords"@, PdfObject::Array(coords)))),
            "Function",
            PdfObject::Dictionary(function),
        );
        Ok(Self { dictionary })
    }

    /// Adds the domain `/Domain`.
    pub fn with_domain(self, domain: PdfArrayObject) -> (r: Result<Self, PdfError>)
        ensures
            has_key(self.dictionary().values@, "Domain"@) <==> r is Err,
            r matches Ok(s) ==> entry_appended(
                self.dictionary(),
                s.dictionary(),
                "Domain"@,
                |o: PdfObject| o == PdfObject::Array(domain),
            ),
    {
        let mut s = self;
        match s.dictionary.add("Domain", PdfObject::Array(domain)) {
            Ok(()) => Ok(s),
            Err(e) => Err(e),
        }
    }

    /// Adds the extension flags `/Extend`.
    pub fn with_extend(self, extend: PdfArrayObject) -> (r: Result<Self, PdfError>)
        ensures
            has_key(self.dictionary().values@, "Extend"@) <==> r is Err,
            r matches Ok(s) ==> entry_appended(
                self.dictionary(),
                s.dictionary(),
                "Extend"@,
                |o: PdfObject| o == PdfObject::Array(extend),
            ),
    {
        let mut s = self;
        match s.dictionary.add("Extend", PdfObject::Array(extend)) {
            Ok(()) => Ok(s),
            Err(e) => Err(e),
        }
    }
}

/// A radial shading (type 3).
pub struct Shading3Radial {
    dictionary: PdfDictionaryObject,
}

impl ShadingBase for Shading3Radial {
    closed spec fn dictionary(&self) -> PdfDictionaryObject {
        self.dictionary
    }

    fn dict_mut(&mut self) -> (d: &mut PdfDictionaryObject) {
        &mut self.dictionary
    }
}

impl Shading3Radial {
    /// The shading type and colour space, then `/Function`.
    pub fn new(color_space: PdfObject, function: PdfDictionaryObject) -> (r: Result<Self, PdfError>)
        ensures
            r matches Ok(s) && fresh_shading(
                s.dictionary(),
                shading_head(ShadingType::Radial, color_space).push(("Function"@, PdfObject::Dictionary(function))),
            ),
    {
        let d = make_shading(color_space, ShadingType::Radial);
        proof {
            reveal_strlit("ShadingType");
            reveal_strlit("ColorSpace");
            reveal_strlit("Function");
            assert("Function"@.len() == 8 && "ShadingType"@.len() == 11 && "ColorSpace"@.len() == 10);
        }
        let dictionary = extend(
            d,
            Ghost(shading_head(ShadingType::Radial, color_space)),
            "Function",
            PdfObject::Dictionary(function),
        );
        Ok(Self { dictionary })
    }

    /// Adds the domain `/Domain`.
    pub fn with_domain(self, domain: PdfArrayObject) -> (r: Result<Self, PdfError>)
        ensures
            has_key(self.dictionary().values@, "Domain"@) <==> r is Err,
            r matches Ok(s) ==> entry_appended(
                self.dictionary(),
                s.dictionary(),
                "Domain"@,
                |o: PdfObject| o == PdfObject::Array(domain),
            ),
    {
        let mut s = self;
        match s.dictionary.add("Domain", PdfObject::Array(domain)) {
            Ok(()) => Ok(s),
            Err(e) => Err(e),
        }
    }

    /// Adds the extension flags `/Extend`.
    pub fn with_extend(self, extend: PdfArrayObject) -> (r: Result<Self, PdfError>)
        ensures
            has_key(self.dictionary().values@, "Extend"@) <==> r is Err,
            r matches Ok(s) ==> entry_appended(
                self.dictionary(),
                s.dictionary(),
                "Extend"@,
                |o: PdfObject| o == PdfObject::Array(extend),
            ),
    {
        let mut s = self;
        match s.dictionary.add("Extend", PdfObject::Array(extend)) {
            Ok(()) => Ok(s),
            Err(e) => Err(e),
        }
    }
}

/// A free-form Gouraud-shaded triangle mesh (type 4).
pub struct Shading4FreeFormGouraud {
    dictionary: PdfDictionaryObject,
}

impl ShadingBase for Shading4FreeFormGouraud {
    closed spec fn dictionary(&self) -> PdfDictionaryObject {
        self.dictionary
    }

    fn dict_mut(&mut self) -> (d: &mut PdfDictionaryObject) {
        &mut self.dictionary
    }
}

impl Shading4FreeFormGouraud {
    /// The entries of [`mesh_entries`] with `/BitsPerFlag`.
    pub fn new(
        color_space: PdfObject,
        bits_per_coordinate: u64,
        bits_per_component: u64,
        bits_per_flag: u64,
        decode: PdfArrayObject,
    ) -> (r: Result<Self, PdfError>)
        ensures
            r matches Ok(s) && fresh_shading(
                s.dictionary(),
                mesh_entries(
                    ShadingType::FreeFormGouraud,
                    color_space,
                    bits_per_coordinate,
                    bits_per_component,
                    "BitsPerFlag"@,
                    bits_per_flag,
                    decode,
                ),
            ),
    {
        let dictionary = make_mesh_shading(
            color_space,
            ShadingType::FreeFormGouraud,
            bits_per_coordinate,
            bits_per_component,
            "BitsPerFlag",
            bits_per_flag,
            decode,
        );
        Ok(Self { dictionary })
    }

    /// Adds the function `/Function`.
    pub fn with(self, function: PdfDictionaryObject) -> (r: Result<Self, PdfError>)
        ensures
            has_key(self.dictionary().values@, "Function"@) <==> r is Err,
            r matches Ok(s) ==> entry_appended(
                self.dictionary(),
                s.dictionary(),
                "Function"@,
                |o: PdfObject| o == PdfObject::Dictionary(function),
            ),
    {
        let mut s = self;
        match s.dictionary.add("Function", PdfObject::Dictionary(function)) {
            Ok(()) => Ok(s),
            Err(e) => Err(e),
        }
    }
}

/// A lattice-form Gouraud-shaded triangle mesh (type 5).
pub struct Shading5LatticeGouraud {
    dictionary: PdfDictionaryObject,
}

impl ShadingBase for Shading5LatticeGouraud {
    closed spec fn dictionary(&self) -> PdfDictionaryObject {
        self.dictionary
    }

    fn dict_mut(&mut self) -> (d: &mut PdfDictionaryObject) {
        &mut self.dictionary
    }
}

impl Shading5LatticeGouraud {
    /// The entries of [`mesh_entries`] with `/VerticesPerRow`.
    pub fn new(
        color_space: PdfObject,
        bits_per_coordinate: u64,
        bits_per_component: u64,
        vertices_per_row: u64,
        decode: PdfArrayObject,
    ) -> (r: Result<Self, PdfError>)
        ensures
            r matches Ok(s) && fresh_shading(
                s.dictionary(),
                mesh_entries(
                    ShadingType::LatticeGouraud,
                    color_space,
                    bits_per_coordinate,
                    bits_per_component,
                    "VerticesPerRow"@,
                    vertices_per_row,
                    decode,
                ),
            ),
    {
        let dictionary = make_mesh_shading(
            color_space,
            ShadingType::LatticeGouraud,
            bits_per_coordinate,
            bits_per_component,
            "VerticesPerRow",
            vertices_per_row,
            decode,
        );
        Ok(Self { dictionary })
    }

    /// Adds the function `/Function`.
    pub fn with(self, function: PdfDictionaryObject) -> (r: Result<Self, PdfError>)
        ensures
            has_key(self.dictionary().values@, "Function"@) <==> r is Err,
            r matches Ok(s) ==> entry_appended(
                self.dictionary(),
                s.dictionary(),
                "Function"@,
                |o: PdfObject| o == PdfObject::Dictionary(function),
            ),
    {
        let mut s = self;
        match s.dictionary.add("Function", PdfObject::Dictionary(function)) {
            Ok(()) => Ok(s),
            Err(e) => Err(e),
        }
    }
}

/// A Coons patch mesh (type 6).
pub struct Shading6CoonsPatch {
    dictionary: PdfDictionaryObject,
}

impl ShadingBase for Shading6CoonsPatch {
    closed spec fn dictionary(&self) -> PdfDictionaryObject {
        self.dictionary
    }

    fn dict_mut(&mut self) -> (d: &mut PdfDictionaryObject) {
        &mut self.dictionary
    }
}

impl Shading6CoonsPatch {
    /// The entries of [`patch_entries`].
    pub fn new(color_space: PdfObject, bits_per_coordinate: i64, bits_per_component: i64, bits_per_flag: i64) -> (r:
        Result<Self, PdfError>)
        ensures
            r matches Ok(s) && fresh_shading(
                s.dictionary(),
                patch_entries(ShadingType::CoonsPatch, color_space, bits_per_coordinate, bits_per_component, bits_per_flag),
            ),
    {
        Ok(
            Self {
                dictionary: make_patch_shading(
                    color_space,
                    ShadingType::CoonsPatch,
                    bits_per_coordinate,
                    bits_per_component,
                    bits_per_flag,
                ),
            },
        )
    }

    /// Adds the decode array `/Decode`.
    pub fn with_decode(self, decode: PdfArrayObject) -> (r: Result<Self, PdfError>)
        ensures
            has_key(self.dictionary().values@, "Decode"@) <==> r is Err,
            r matches Ok(s) ==> entry_appended(
                self.dictionary(),
                s.dictionary(),
                "Decode"@,
                |o: PdfObject| o == PdfObject::Array(decode),
            ),
    {
        let mut s = self;
        match s.dictionary.add("Decode", PdfObject::Array(decode)) {
            Ok(()) => Ok(s),
            Err(e) => Err(e),
        }
    }

    /// Adds the function `/Function`.
    pub fn with_function(self, function: PdfDictionaryObject) -> (r: Result<Self, PdfError>)
        ensures
            has_key(self.dictionary().values@, "Function"@) <==> r is Err,
            r matches Ok(s) ==> entry_appended(
                self.dictionary(),
                s.dictionary(),
                "Function"@,
                |o: PdfObject| o == PdfObject::Dictionary(function),
            ),
    {
        let mut s = self;
        match s.dictionary.add("Function", PdfObject::Dictionary(function)) {
            Ok(()) => Ok(s),
            Err(e) => Err(e),
        }
    }
}

/// A tensor-product patch mesh (type 7).
pub struct Shading7TensorPatch {
    dictionary: PdfDictionaryObject,
}

impl ShadingBase for Shading7TensorPatch {
    closed spec fn dictionary(&self) -> PdfDictionaryObject {
        self.dictionary
    }

    fn dict_mut(&mut self) -> (d: &mut PdfDictionaryObject) {
        &mut self.dictionary
    }
}

impl Shading7TensorPatch {
    /// The entries of [`patch_entries`].
    pub fn new(color_space: PdfObject, bits_per_coordinate: i64, bits_per_component: i64, bits_per_flag: i64) -> (r:
        Result<Self, PdfError>)
        ensures
            r matches Ok(s) && fresh_shading(
                s.dictionary(),
                patch_entries(ShadingType::TensorPatch, color_space, bits_per_coordinate, bits_per_component, bits_per_flag),
            ),
    {
        Ok(
            Self {
                dictionary: make_patch_shading(
                    color_space,
                    ShadingType::TensorPatch,
                    bits_per_coordinate,
                    bits_per_component,
                    bits_per_flag,
                ),
            },
        )
    }

    /// Adds the decode array `/Decode`.
    pub fn with_decode(self, decode: PdfArrayObject) -> (r: Result<Self, PdfError>)
        ensures
            has_key(self.dictionary().values@, "Decode"@) <==> r is Err,
            r matches Ok(s) ==> entry_appended(
                self.dictionary(),
                s.dictionary(),
                "Decode"@,
                |o: PdfObject| o == PdfObject::Array(decode),
            ),
    {
        let mut s = self;
        match s.dictionary.add("Decode", PdfObject::Array(decode)) {
            Ok(()) => Ok(s),
            Err(e) => Err(e),
        }
    }

    /// Adds the function `/Function`.
    pub fn with_function(self, function: PdfDictionaryObject) -> (r: Result<Self, PdfError>)
        ensures
            has_key(self.dictionary().values@, "Function"@) <==> r is Err,
            r matches Ok(s) ==> entry_appended(
                self.dictionary(),
                s.dictionary(),
                "Function"@,
                |o: PdfObject| o == PdfObject::Dictionary(function),
            ),
    {
        let mut s = self;
        match s.dictionary.add("Function", PdfObject::Dictionary(function)) {
            Ok(()) => Ok(s),
            Err(e) => Err(e),
        }
    }
}

} // verus!
