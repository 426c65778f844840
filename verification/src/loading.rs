//! What the main window shows while a project loads: the progress bar's
//! style and a row for each plugin or sample that could not be found.
use vstd::prelude::*;

verus! {

/// How the loading progress bar is drawn.
#[derive(Clone, Copy, Debug, PartialEq, Eq, Structural)]
pub enum ProgressStyle {
    Primary,
    Danger,
}

/// The bar turns to the danger style as soon as anything is missing.
pub fn progress_style(missing_plugins: usize, missing_samples: usize) -> (style: ProgressStyle)
    ensures
        style == (if missing_plugins == 0 && missing_samples == 0 {
            ProgressStyle::Primary
        } else {
            ProgressStyle::Danger
        }),
{
    if missing_plugins == 0 && missing_samples == 0 {
        ProgressStyle::Primary
    } else {
        ProgressStyle::Danger
    }
}

/// What a row is about: the missing plugin or sample at that index.  A
/// plugin row offers Ignore and Cancel; a sample row also offers Pick.
#[derive(Clone, Copy, Debug, PartialEq, Eq, Structural)]
pub enum MissingItem {
    Plugin(usize),
    Sample(usize),
}

/// One row of the missing-items list.
pub struct MissingRow {
    pub item: MissingItem,
    pub label: String,
    pub name: String,
}

/// The label of a row.
pub open spec fn missing_label(item: MissingItem) -> Seq<char> {
    match item {
        MissingItem::Plugin(_) => "can't find plugin"@,
        MissingItem::Sample(_) => "can't find sample"@,
    }
}

/// `row` is the row for `item`, named `name`.
pub open spec fn row_is(row: MissingRow, item: MissingItem, name: Seq<char>) -> bool {
    &&& row.item == item
    &&& row.label@ == missing_label(item)
    &&& row.name@ == name
}

fn copy_text(s: &String) -> (out: String)
    ensures
        out@ == s@,
{
    s.clone()
}

fn label_for(item: MissingItem) -> (label: String)
    ensures
        label@ == missing_label(item),
{
    proof {
        reveal_strlit("can't find plugin");
        reveal_strlit("can't find sample");
    }
    match item {
        MissingItem::Plugin(_) => String::from_str("can't find plugin"),
        MissingItem::Sample(_) => String::from_str("can't find sample"),
    }
}

/// The rows of the missing-items list: every missing plugin in order, then
/// every missing sample in order, each with its index in its own list.
pub fn missing_rows(plugins: &Vec<String>, samples: &Vec<String>) -> (rows: Vec<MissingRow>)
    ensures
        rows@.len() == plugins@.len() + samples@.len(),
        forall|i: int|
            0 <= i < plugins@.len() ==> row_is(
                #[trigger] rows@[i],
                MissingItem::Plugin(i as usize),
                plugins@[i]@,
            ),
        forall|i: int|
            0 <= i < samples@.len() ==> row_is(
                #[trigger] rows@[plugins@.len() + i],
                MissingItem::Sample(i as usize),
                samples@[i]@,
            ),
{
    let mut rows: Vec<MissingRow> = Vec::new();
    let mut i: usize = 0;
    while i < plugins.len()
        invariant
            i <= plugins@.len(),
            rows@.len() == i,
            forall|k: int|
                0 <= k < i ==> row_is(#[trigger] rows@[k], MissingItem::Plugin(k as usize), plugins@[k]@),
        decreases plugins@.len() - i,
    {
        let item = MissingItem::Plugin(i);
        rows.push(MissingRow { item, label: label_for(item), name: copy_text(&plugins[i]) });
        i = i + 1;
    }
    let mut j: usize = 0;
    while j < samples.len()
        invariant
            i == plugins@.len(),
            j <= samples@.len(),
            rows@.len() == i + j,
            forall|k: int|
                0 <= k < i ==> row_is(#[trigger] rows@[k], MissingItem::Plugin(k as usize), plugins@[k]@),
            forall|k: int|
                0 <= k < j ==> row_is(#[trigger] rows@[i + k], MissingItem::Sample(k as usize), samples@[k]@),
        decreases samples@.len() - j,
    {
        let item = MissingItem::Sample(j);
        rows.push(MissingRow { item, label: label_for(item), name: copy_text(&samples[j]) });
        j = j + 1;
    }
    rows
}

} // verus!
