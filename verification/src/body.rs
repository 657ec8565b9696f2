//! The body of a file: the objects of the document, written one after the other.
use vstd::prelude::*;
use crate::PdfError;
use crate::cross_ref::CrossRefTable;
use crate::objects::pdf_object::PdfObject;
use crate::objects::serial::{
    lemma_children_prefix_none, lemma_children_step, nothing, write_child, write_child_of, write_children, wrote,
};

verus! {

/// The objects of a document, in the order they are written.
pub struct Body {
    objects: Vec<PdfObject>,
}

impl Body {
    pub closed spec fn objects(&self) -> Seq<PdfObject> {
        self.objects@
    }

    pub fn new() -> (b: Self)
        ensures
            b.objects() == Seq::<PdfObject>::empty(),
    {
        Body { objects: Vec::new() }
    }

    pub fn add_object(&mut self, object: PdfObject)
        ensures
            final(self).objects() == old(self).objects().push(object),
    {
        self.objects.push(object);
    }

    /// Writes the objects one after the other, a dictionary with its indirect values and its
    /// children (see [`write_children`]), and records each written object in `xref`.
    pub fn serialise(&mut self, xref: &mut CrossRefTable, out: &mut Vec<u8>) -> (r: Result<(), PdfError>)
        ensures
            wrote(
                write_children(old(self).objects(), old(out)@.len()),
                r,
                old(out)@,
                final(out)@,
                old(xref)@,
                final(xref)@,
            ),
            old(xref).wf() ==> final(xref).wf(),
            *final(self) == *old(self),
    {
        let ghost base = out@.len();
        let ghost out0 = out@;
        let ghost x0 = xref@;
        let mut j: usize = 0;
        assert(self.objects@.take(0) =~= Seq::<PdfObject>::empty());
        assert(out0 + nothing().0 =~= out0);
        assert(x0 + nothing().1 =~= x0);
        while j < self.objects.len()
            invariant
                j <= self.objects@.len(),
                base == out0.len(),
                out0 == old(out)@,
                x0 == old(xref)@,
                *self == *old(self),
                old(xref).wf() ==> xref.wf(),
                write_children(self.objects@.take(j as int), base) matches Some(w) && out@ == out0 + w.0 && xref@
                    == x0 + w.1,
            decreases self.objects@.len() - j,
        {
            proof {
                lemma_children_step(self.objects@, base, j as int);
            }
            let ghost prev = write_children(self.objects@.take(j as int), base)->Some_0;
            match write_child_of(&self.objects[j], xref, out) {
                Ok(()) => {},
                Err(e) => {
                    proof {
                        lemma_children_prefix_none(self.objects@, base, j + 1);
                    }
                    return Err(e);
                },
            }
            let ghost step = write_child(self.objects@[j as int], base + prev.0.len())->Some_0;
            assert(out@ =~= out0 + (prev.0 + step.0));
            assert(xref@ =~= x0 + (prev.1 + step.1));
            j = j + 1;
        }
        assert(self.objects@.take(self.objects@.len() as int) =~= self.objects@);
        Ok(())
    }
}

} // verus!
