//! Soft masks: a group whose luminosity or alpha sets how transparent what is painted is.
use vstd::prelude::*;
use crate::PdfError;
use crate::objects::dictionary::{PdfDictionaryObject, has_key, keys_of, plain_dict};
use crate::objects::pdf_array::PdfArrayObject;
use crate::objects::pdf_object::{PdfObject, is_name};
use crate::objects::stream::PdfStreamObject;

verus! {

pub enum MaskSubType {
    Luminosity,
    Alpha,
}

pub open spec fn mask_subtype_name(m: MaskSubType) -> Seq<char> {
    match m {
        MaskSubType::Luminosity => "Luminosity"@,
        MaskSubType::Alpha => "Alpha"@,
    }
}

impl MaskSubType {
    pub fn as_str(&self) -> (s: &'static str)
        ensures
            s@ == mask_subtype_name(*self),
    {
        match self {
            MaskSubType::Luminosity => "Luminosity",
            MaskSubType::Alpha => "Alpha",
        }
    }
}

/// A soft mask dictionary.
pub struct SoftMask {
    dictionary: PdfDictionaryObject,
}

/// `after` is `before` with the entry `key`, `object` appended, or the call failed and
/// `before` had the key.
pub open spec fn mask_added(before: SoftMask, r: Result<SoftMask, PdfError>, key: Seq<char>, object: PdfObject) -> bool {
    if has_key(before.dict().values@, key) {
        r is Err
    } else {
        r matches Ok(m) && {
            &&& m.dict().values@.len() == before.dict().values@.len() + 1
            &&& m.dict().values@.subrange(0, before.dict().values@.len() as int) == before.dict().values@
            &&& m.dict().values@.last().0.value@ == key
            &&& m.dict().values@.last().1 == object
            &&& (before.dict().wf() ==> m.dict().wf())
        }
    }
}

impl SoftMask {
    /// The dictionary of the mask.
    pub closed spec fn dict(&self) -> PdfDictionaryObject {
        self.dictionary
    }

    /// A mask with the subtype `/S` and the group `/G`.
    pub fn new(sub_type: MaskSubType, stream: PdfStreamObject) -> (r: Result<Self, PdfError>)
        ensures
            r matches Ok(m) && {
                &&& plain_dict(m.dict())
                &&& keys_of(m.dict().values@) =~= seq!["S"@, "G"@]
                &&& is_name(m.dict().values@[0].1, mask_subtype_name(sub_type))
                &&& m.dict().values@[1].1 == PdfObject::Stream(stream)
            },
    {
        proof {
            reveal_strlit("S");
            reveal_strlit("G");
            assert("S"@[0] != "G"@[0]);
        }
        let mut msk = SoftMask { dictionary: PdfDictionaryObject::new() };
        msk.dictionary.put_new("S", PdfObject::name_obj(sub_type.as_str()));
        msk.dictionary.put_new("G", PdfObject::Stream(stream));
        Ok(msk)
    }

    fn add(self, key: &str, object: PdfObject) -> (r: Result<Self, PdfError>)
        ensures
            mask_added(self, r, key@, object),
    {
        let mut s = self;
        match s.dictionary.add(key, object) {
            Ok(()) => Ok(s),
            Err(e) => Err(e),
        }
    }

    /// Adds `/Type /Mask`.
    pub fn typed(self) -> (r: Result<Self, PdfError>)
        ensures
            if has_key(self.dict().values@, "Type"@) {
                r is Err
            } else {
                r matches Ok(m) && {
                    &&& m.dict().values@.len() == self.dict().values@.len() + 1
                    &&& m.dict().values@.subrange(0, self.dict().values@.len() as int) == self.dict().values@
                    &&& m.dict().values@.last().0.value@ == "Type"@
                    &&& is_name(m.dict().values@.last().1, "Mask"@)
                }
            },
    {
        self.add("Type", PdfObject::name_obj("Mask"))
    }

    /// Adds the backdrop colour `/BG`.
    pub fn with_backdrop(self, backdrop: PdfArrayObject) -> (r: Result<Self, PdfError>)
        ensures
            mask_added(self, r, "BG"@, PdfObject::Array(backdrop)),
    {
        self.add("BG", PdfObject::Array(backdrop))
    }

    /// Adds the transfer function `/TR`.
    pub fn with_function(self, function: PdfDictionaryObject) -> (r: Result<Self, PdfError>)
        ensures
            mask_added(self, r, "TR"@, PdfObject::Dictionary(function)),
    {
        self.add("TR", PdfObject::Dictionary(function))
    }

    /// Adds the identity transfer function `/TR /Identity`.
    pub fn with_function_identity(self) -> (r: Result<Self, PdfError>)
        ensures
            if has_key(self.dict().values@, "TR"@) {
                r is Err
            } else {
                r matches Ok(m) && {
                    &&& m.dict().values@.len() == self.dict().values@.len() + 1
                    &&& m.dict().values@.subrange(0, self.dict().values@.len() as int) == self.dict().values@
                    &&& m.dict().values@.last().0.value@ == "TR"@
                    &&& is_name(m.dict().values@.last().1, "Identity"@)
                }
            },
    {
        self.add("TR", PdfObject::name_obj("Identity"))
    }
}

} // verus!
