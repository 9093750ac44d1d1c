//! Pure projection of the store's snapshot into display rows.

use vstd::prelude::*;
use crate::store::{Upload, UploadView, uploads_view};

verus! {

/// Model of one display row: the texts of its two columns.
#[verifier::ext_equal]
pub ghost struct RowView {
    pub name: Seq<char>,
    pub content: Seq<char>,
}

/// One row of the results table: the Name and Content columns.
#[derive(Clone)]
pub struct Row {
    pub name: String,
    pub content: String,
}

impl View for Row {
    type V = RowView;

    open spec fn view(&self) -> RowView {
        RowView { name: self.name@, content: self.content@ }
    }
}

/// The model of a list of rows: the sequence of their models.
pub open spec fn rows_view(s: Seq<Row>) -> Seq<RowView> {
    s.map_values(|r: Row| r@)
}

/// The rows a store snapshot projects to: one row per upload, in store
/// order, carrying the upload's name and content unchanged.
pub open spec fn rows_of(s: Seq<UploadView>) -> Seq<RowView> {
    s.map_values(|u: UploadView| (RowView { name: u.name, content: u.content }))
}

/// Pure, side-effect-free projection of a snapshot into display rows,
/// preserving sequence order. Never mutates the store; its result is a
/// function of the snapshot alone.
pub fn project(uploads: &Vec<Upload>) -> (rows: Vec<Row>)
    ensures
        rows_view(rows@) == rows_of(uploads_view(uploads@)),
{
    let mut rows: Vec<Row> = Vec::new();
    let mut i: usize = 0;
    while i < uploads.len()
        invariant
            i <= uploads@.len(),
            rows@.len() == i,
            forall|j: int| 0 <= j < i ==>
                #[trigger] rows@[j]@ == (RowView { name: uploads@[j]@.name, content: uploads@[j]@.content }),
        decreases uploads@.len() - i,
    {
        let u = &uploads[i];
        rows.push(Row { name: u.name.clone(), content: u.content.clone() });
        i = i + 1;
    }
    proof {
        assert(rows_view(rows@) =~= rows_of(uploads_view(uploads@)));
    }
    rows
}

/// Idempotent projection: two projections of the same snapshot, with no
/// store mutation in between, are identical.
pub proof fn lemma_projection_idempotent(s: Seq<UploadView>, r1: Seq<RowView>, r2: Seq<RowView>)
    requires
        r1 == rows_of(s),
        r2 == rows_of(s),
    ensures
        r1 == r2,
{
}

}
