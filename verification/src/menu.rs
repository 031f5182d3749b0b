//! The items of the on-screen menu.
//!
//! A menu is a flat list in which the items of a submenu follow it one level
//! deeper.

use vstd::prelude::*;

use crate::config;
use crate::number;
use crate::text;

verus! {

/// What an item is.
pub enum Kind {
    /// One of several options is selected.
    Value { options: Vec<String>, selected: usize },
    /// Does something when chosen.
    Action,
    /// A text that can be edited.
    Text(String),
    /// Has the deeper items that follow.
    Submenu,
    /// A line between items.
    Separator,
    /// Only tells something.
    Info,
}

/// An item of a menu.
pub struct MenuItem {
    pub depth: usize,
    pub label: String,
    pub kind: Kind,
}

/// What a `Kind` holds.
#[verifier::ext_equal]
pub enum KindView {
    Value { options: Seq<Seq<char>>, selected: nat },
    Action,
    Text(Seq<char>),
    Submenu,
    Separator,
    Info,
}

/// What a `MenuItem` holds.
#[verifier::ext_equal]
pub struct ItemView {
    pub depth: nat,
    pub label: Seq<char>,
    pub kind: KindView,
}

impl View for Kind {
    type V = KindView;

    open spec fn view(&self) -> KindView {
        match self {
            Kind::Value { options, selected } => KindView::Value {
                options: config::strings(options@),
                selected: *selected as nat,
            },
            Kind::Action => KindView::Action,
            Kind::Text(s) => KindView::Text(s@),
            Kind::Submenu => KindView::Submenu,
            Kind::Separator => KindView::Separator,
            Kind::Info => KindView::Info,
        }
    }
}

impl View for MenuItem {
    type V = ItemView;

    open spec fn view(&self) -> ItemView {
        ItemView { depth: self.depth as nat, label: self.label@, kind: self.kind@ }
    }
}

/// What the items of a menu hold.
pub open spec fn items(v: Seq<MenuItem>) -> Seq<ItemView> {
    v.map_values(|i: MenuItem| i@)
}

/// An item with options.
pub open spec fn value(depth: nat, label: Seq<char>, options: Seq<Seq<char>>, selected: nat) -> ItemView {
    ItemView { depth, label, kind: KindView::Value { options, selected } }
}

/// An item with two options, `Off` and `On`.
pub open spec fn switch(depth: nat, label: Seq<char>, on: bool) -> ItemView {
    value(
        depth,
        label,
        seq!["Off"@, "On"@],
        if on {
            1
        } else {
            0
        },
    )
}

/// An item that does something.
pub open spec fn action(depth: nat, label: Seq<char>) -> ItemView {
    ItemView { depth, label, kind: KindView::Action }
}

/// An item with a text.
pub open spec fn field(depth: nat, label: Seq<char>, content: Seq<char>) -> ItemView {
    ItemView { depth, label, kind: KindView::Text(content) }
}

/// An item whose own items follow.
pub open spec fn submenu(depth: nat, label: Seq<char>) -> ItemView {
    ItemView { depth, label, kind: KindView::Submenu }
}

/// A line between items.
pub open spec fn separator(depth: nat) -> ItemView {
    ItemView { depth, label: Seq::empty(), kind: KindView::Separator }
}

/// An item that only tells something.
pub open spec fn info(depth: nat, label: Seq<char>) -> ItemView {
    ItemView { depth, label, kind: KindView::Info }
}

/// The texts of words.
pub open spec fn word_texts(words: Seq<&str>) -> Seq<Seq<char>> {
    words.map_values(|w: &str| w@)
}

/// Makes strings of words.
pub fn words(list: &[&str]) -> (r: Vec<String>)
    ensures
        config::strings(r@) == word_texts(list@),
{
    let mut out: Vec<String> = Vec::new();
    let mut i: usize = 0;
    while i < list.len()
        invariant
            i <= list@.len(),
            out@.len() == i,
            forall|j: int| 0 <= j < i ==> (#[trigger] out@[j])@ == list@[j]@,
        decreases list@.len() - i,
    {
        out.push(list[i].to_owned());
        i += 1;
    }
    assert(config::strings(out@) =~= word_texts(list@));
    out
}

impl MenuItem {
    /// An item with options, of which one is selected.
    pub fn value(depth: usize, label: &str, options: Vec<String>, selected: usize) -> (r: MenuItem)
        ensures
            r@ == value(
                depth as nat,
                label@,
                config::strings(options@),
                selected as nat,
            ),
    {
        MenuItem { depth, label: label.to_owned(), kind: Kind::Value { options, selected } }
    }

    /// An item with the options `Off` and `On`.
    pub fn switch(depth: usize, label: &str, on: bool) -> (r: MenuItem)
        ensures
            r@ == switch(depth as nat, label@, on),
    {
        let options = words(&["Off", "On"]);
        assert(config::strings(options@) =~= seq!["Off"@, "On"@]);
        MenuItem::value(
            depth,
            label,
            options,
            if on {
                1
            } else {
                0
            },
        )
    }

    /// An item that does something when chosen.
    pub fn action(depth: usize, label: &str) -> (r: MenuItem)
        ensures
            r@ == action(depth as nat, label@),
    {
        MenuItem { depth, label: label.to_owned(), kind: Kind::Action }
    }

    /// An item with a text that can be edited.
    pub fn text(depth: usize, label: &str, content: String) -> (r: MenuItem)
        ensures
            r@ == field(depth as nat, label@, content@),
    {
        MenuItem { depth, label: label.to_owned(), kind: Kind::Text(content) }
    }

    /// An item whose own items follow.
    pub fn submenu(depth: usize, label: &str) -> (r: MenuItem)
        ensures
            r@ == submenu(depth as nat, label@),
    {
        MenuItem { depth, label: label.to_owned(), kind: Kind::Submenu }
    }

    /// A line between items.
    pub fn separator(depth: usize) -> (r: MenuItem)
        ensures
            r@ == separator(depth as nat),
    {
        let label = String::new();
        assert(label@ =~= Seq::empty());
        MenuItem { depth, label, kind: Kind::Separator }
    }

    /// An item that only tells something.
    pub fn info(depth: usize, label: String) -> (r: MenuItem)
        ensures
            r@ == info(depth as nat, label@),
    {
        MenuItem { depth, label, kind: Kind::Info }
    }
}

/// Adds an item at the end.
pub fn push(out: &mut Vec<MenuItem>, item: MenuItem)
    ensures
        items(final(out)@) == items(old(out)@).push(item@),
{
    let ghost before = out@;
    out.push(item);
    assert(items(out@) =~= items(before).push(item@));
}

/// Adds items at the end.
pub fn append(out: &mut Vec<MenuItem>, more: Vec<MenuItem>)
    ensures
        items(final(out)@) == items(old(out)@) + items(more@),
{
    let ghost before = out@;
    let ghost all = more@;
    let mut more = more;
    out.append(&mut more);
    assert(items(out@) =~= items(before) + items(all));
}

/// Which option is selected in the first item with options under a label;
/// `None` where there is no such item.
pub open spec fn selection(menu: Seq<ItemView>, label: Seq<char>) -> Option<nat>
    decreases menu.len(),
{
    if menu.len() == 0 {
        None
    } else {
        match menu[0].kind {
            KindView::Value { selected, .. } if menu[0].label == label => Some(selected),
            _ => selection(menu.skip(1), label),
        }
    }
}

/// Looks for the item with options under a label and gives the selected one.
pub fn find_menu_value(menu: &[MenuItem], label: &str) -> (r: Option<usize>)
    ensures
        match r {
            Some(i) => selection(items(menu@), label@) == Some(i as nat),
            None => selection(items(menu@), label@) is None,
        },
{
    let ghost all = items(menu@);
    assert(all.skip(0) =~= all);
    let mut i: usize = 0;
    while i < menu.len()
        invariant
            i <= menu@.len(),
            all == items(menu@),
            selection(all, label@) == selection(all.skip(i as int), label@),
        decreases menu@.len() - i,
    {
        assert(all.skip(i as int)[0] == menu@[i as int]@);
        assert(all.skip(i as int).skip(1) =~= all.skip(i + 1));
        if let Kind::Value { selected, .. } = &menu[i].kind {
            if text::same(menu[i].label.as_str(), label) {
                return Some(*selected);
            }
        }
        i += 1;
    }
    None
}

pub const QUALITY_OPTIONS: [u32; 8] = [50, 60, 70, 80, 85, 90, 95, 100];

pub const STREAM_PORT_OPTIONS: [u32; 7] = [9000, 9001, 9002, 9010, 9100, 8000, 8080];

pub const STREAM_QUALITY_OPTIONS: [u32; 7] = [40, 50, 60, 70, 80, 90, 95];

pub const STRIP_GRID_OPTIONS: [u32; 6] = [1, 2, 3, 4, 5, 6];

pub const AUDIO_BUF_OPTIONS: [u32; 7] = [5, 10, 15, 20, 30, 40, 50];

pub const TARGET_FPS_OPTIONS: [u32; 8] = [0, 60, 90, 120, 144, 165, 180, 240];

/// The place of a number in a table from a place on; `other` where it is not
/// there.
pub open spec fn place_from(table: Seq<u32>, n: int, other: nat, from: int) -> nat
    decreases table.len() - from,
{
    if from < 0 || from >= table.len() {
        other
    } else if table[from] == n {
        from as nat
    } else {
        place_from(table, n, other, from + 1)
    }
}

/// The place of a number in a table; `other` where it is not there.
pub open spec fn place(table: Seq<u32>, n: int, other: nat) -> nat {
    place_from(table, n, other, 0)
}

/// Looks a number up in a table.
pub fn place_in(table: &[u32], n: u32, other: usize) -> (r: usize)
    ensures
        r == place(table@, n as int, other as nat),
{
    let mut i: usize = 0;
    while i < table.len()
        invariant
            i <= table@.len(),
            place(table@, n as int, other as nat) == place_from(
                table@,
                n as int,
                other as nat,
                i as int,
            ),
        decreases table@.len() - i,
    {
        if table[i] == n {
            return i;
        }
        i += 1;
    }
    other
}

/// The place of a buffer size in its table; that of 10 ms where it is not there.
pub fn buf_ms_index(ms: i32) -> (r: usize)
    ensures
        r == place(AUDIO_BUF_OPTIONS@, ms as int, 1),
        r < 7,
{
    reveal_with_fuel(place_from, 8);
    if ms < 0 {
        1
    } else {
        place_in(AUDIO_BUF_OPTIONS.as_slice(), ms as u32, 1)
    }
}

/// A number with something behind it.
pub open spec fn unit_label(n: nat, unit: Seq<char>) -> Seq<char> {
    number::decimal(n) + unit
}

/// Writes a number with something behind it.
pub fn to_unit_label(n: u64, unit: &str) -> (r: String)
    ensures
        r@ == unit_label(n as nat, unit@),
{
    let mut out = number::to_decimal(n);
    let u = text::chars_of(unit);
    text::extend(&mut out, u.as_slice());
    text::string_of(out.as_slice())
}

/// Labels for the numbers of a table.
pub open spec fn unit_labels(table: Seq<u32>, unit: Seq<char>) -> Seq<Seq<char>> {
    table.map_values(|n: u32| unit_label(n as nat, unit))
}

/// Writes labels for the numbers of a table.
pub fn to_unit_labels(table: &[u32], unit: &str) -> (r: Vec<String>)
    ensures
        config::strings(r@) == unit_labels(table@, unit@),
{
    let mut out: Vec<String> = Vec::new();
    let mut i: usize = 0;
    while i < table.len()
        invariant
            i <= table@.len(),
            out@.len() == i,
            forall|j: int|
                0 <= j < i ==> (#[trigger] out@[j])@ == unit_label(table@[j] as nat, unit@),
        decreases table@.len() - i,
    {
        out.push(to_unit_label(table[i] as u64, unit));
        i += 1;
    }
    assert(config::strings(out@) =~= unit_labels(table@, unit@));
    out
}

/// Labels in per cent, in steps of five, of which the first is so many steps
/// from 0.
pub open spec fn percent_steps(first: nat, count: nat) -> Seq<Seq<char>> {
    Seq::new(count, |i: int| unit_label((5 * (first + i)) as nat, "%"@))
}

/// Writes labels in per cent.
pub fn to_percent_steps(first: u32, count: u32) -> (r: Vec<String>)
    ensures
        config::strings(r@) == percent_steps(first as nat, count as nat),
{
    let mut out: Vec<String> = Vec::new();
    let mut i: u32 = 0;
    while i < count
        invariant
            i <= count,
            out@.len() == i,
            forall|j: int|
                0 <= j < i ==> (#[trigger] out@[j])@ == unit_label((5 * (first + j)) as nat, "%"@),
        decreases count - i,
    {
        out.push(to_unit_label(5 * (first as u64 + i as u64), "%"));
        i += 1;
    }
    assert(config::strings(out@) =~= percent_steps(first as nat, count as nat));
    out
}

/// A table's numbers and their places determine each other, so that what a menu
/// shows as selected is what is read back from it.
pub proof fn law_tables_read_back(i: int)
    ensures
        0 <= i < 8 ==> place(QUALITY_OPTIONS@, QUALITY_OPTIONS@[i] as int, 5) == i,
        0 <= i < 7 ==> place(STREAM_PORT_OPTIONS@, STREAM_PORT_OPTIONS@[i] as int, 0) == i,
        0 <= i < 7 ==> place(STREAM_QUALITY_OPTIONS@, STREAM_QUALITY_OPTIONS@[i] as int, 4) == i,
        0 <= i < 6 ==> place(STRIP_GRID_OPTIONS@, STRIP_GRID_OPTIONS@[i] as int, 0) == i,
        0 <= i < 7 ==> place(AUDIO_BUF_OPTIONS@, AUDIO_BUF_OPTIONS@[i] as int, 1) == i,
        0 <= i < 8 ==> place(TARGET_FPS_OPTIONS@, TARGET_FPS_OPTIONS@[i] as int, 0) == i,
{
    reveal_with_fuel(place_from, 9);
}

} // verus!
