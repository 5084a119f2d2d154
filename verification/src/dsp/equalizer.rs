//! Filter kinds of the parametric equalizer and their filter-chain labels.
use vstd::prelude::*;

verus! {

/// Number of equalizer bands.
pub const NUM_BANDS: usize = 10;

/// Kind of biquad filter of a band.
#[derive(Debug, Clone, Copy, PartialEq, Eq, Structural)]
pub enum FilterType {
    LowShelf,
    Peaking,
    HighShelf,
}

/// The PipeWire filter-chain builtin label of a filter kind.
pub open spec fn filter_label_of(t: FilterType) -> Seq<char> {
    match t {
        FilterType::LowShelf => "bq_lowshelf"@,
        FilterType::Peaking => "bq_peaking"@,
        FilterType::HighShelf => "bq_highshelf"@,
    }
}

/// Generate a PipeWire filter-chain label for a given filter type.
pub fn filter_label(filter_type: FilterType) -> (r: &'static str)
    ensures
        r@ == filter_label_of(filter_type),
{
    match filter_type {
        FilterType::LowShelf => "bq_lowshelf",
        FilterType::Peaking => "bq_peaking",
        FilterType::HighShelf => "bq_highshelf",
    }
}

/// Distinct filter kinds have distinct labels.
pub proof fn lemma_filter_labels_distinct(a: FilterType, b: FilterType)
    requires
        a != b,
    ensures
        filter_label_of(a) != filter_label_of(b),
{
    reveal_strlit("bq_lowshelf");
    reveal_strlit("bq_peaking");
    reveal_strlit("bq_highshelf");
    assert("bq_lowshelf"@.len() != "bq_peaking"@.len());
    assert("bq_peaking"@.len() != "bq_highshelf"@.len());
    if a == FilterType::LowShelf && b == FilterType::HighShelf || a == FilterType::HighShelf && b
        == FilterType::LowShelf {
        assert("bq_lowshelf"@[3] != "bq_highshelf"@[3]);
    }
}

/// The filter kind of each default band: a low shelf, eight peaking filters,
/// a high shelf.
pub fn default_filter_type(band: usize) -> (r: FilterType)
    requires
        band < NUM_BANDS,
    ensures
        r == (if band == 0 {
            FilterType::LowShelf
        } else if band == NUM_BANDS - 1 {
            FilterType::HighShelf
        } else {
            FilterType::Peaking
        }),
{
    if band == 0 {
        FilterType::LowShelf
    } else if band == NUM_BANDS - 1 {
        FilterType::HighShelf
    } else {
        FilterType::Peaking
    }
}

} // verus!
