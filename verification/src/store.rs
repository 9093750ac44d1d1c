//! The shared list of successfully decoded uploads: the single source of
//! truth that the results view renders.

use vstd::prelude::*;

verus! {

/// Model of one decoded upload: the file's name and its decoded text,
/// as sequences of characters.
#[verifier::ext_equal]
pub ghost struct UploadView {
    pub name: Seq<char>,
    pub content: Seq<char>,
}

/// One successfully decoded file: a (name, content) record, immutable once
/// constructed; created only by a read task that decoded its bytes, removed
/// only by a full-store clear.
#[derive(Clone)]
pub struct Upload {
    pub name: String,
    pub content: String,
}

impl View for Upload {
    type V = UploadView;

    open spec fn view(&self) -> UploadView {
        UploadView { name: self.name@, content: self.content@ }
    }
}

/// The model of a list of uploads: the sequence of their models.
pub open spec fn uploads_view(s: Seq<Upload>) -> Seq<UploadView> {
    s.map_values(|u: Upload| u@)
}

/// Ordered list of the uploads of the current batch. Insertion order is
/// completion order of the read tasks, not selection order, since reads
/// complete asynchronously and out of order.
#[derive(Clone)]
pub struct UploadStore {
    items: Vec<Upload>,
}

impl View for UploadStore {
    type V = Seq<UploadView>;

    closed spec fn view(&self) -> Seq<UploadView> {
        uploads_view(self.items@)
    }
}

impl UploadStore {
    /// A fresh, empty store.
    pub fn new() -> (s: Self)
        ensures
            s@ == Seq::<UploadView>::empty(),
    {
        let s = UploadStore { items: Vec::new() };
        proof {
            assert(s@ =~= Seq::<UploadView>::empty());
        }
        s
    }

    /// How many uploads the store currently holds.
    pub fn len(&self) -> (n: usize)
        ensures
            n == self@.len(),
    {
        self.items.len()
    }

    /// Adds one upload at the end of the sequence. Total: no error case.
    pub fn append(&mut self, u: Upload)
        ensures
            final(self)@ == old(self)@.push(u@),
    {
        self.items.push(u);
        proof {
            assert(self@ =~= old(self)@.push(u@));
        }
    }

    /// Empties the sequence. Total: no error case.
    pub fn clear(&mut self)
        ensures
            final(self)@ == Seq::<UploadView>::empty(),
    {
        self.items.clear();
        proof {
            assert(self@ =~= Seq::<UploadView>::empty());
        }
    }

    /// The current sequence, for read-only iteration. Never blocks and never
    /// fails; the caller sees exactly the store's latest value.
    pub fn snapshot(&self) -> (r: &Vec<Upload>)
        ensures
            uploads_view(r@) == self@,
    {
        &self.items
    }
}

}
