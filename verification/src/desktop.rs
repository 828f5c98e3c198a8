//! The desktop grid: which entries of the Desktop folders are shown, in
//! what order, how a new item is named when the name is taken, and which
//! path a click launches.
use vstd::prelude::*;
use crate::app_state::DesktopItem;
use crate::order::{is_sorted_order, key_seq, stable_order};
use crate::text::{ascii_lower, eq_ignore_ascii_case, str_chars, str_eq_ignore_ascii_case, to_lowercase, unicode_lowercase};
use crate::numfmt::{dec, is_digit, lemma_dec_is_digits, lemma_dec_value, u64_to_dec};

verus! {

broadcast use vstd::string::group_string_axioms;

/// One directory entry of a Desktop folder, as the walker reads it.
pub struct DesktopEntry {
    pub path: String,
    /// File name without extension, when it has one.
    pub stem: Option<String>,
    /// Last path component.
    pub file_name: Option<String>,
    /// File attributes, when the metadata could be read.
    pub attributes: Option<u32>,
    pub is_dir: bool,
}

pub const FILE_ATTRIBUTE_HIDDEN: u32 = 0x2;

/// Hidden entries (hidden attribute set) are not shown.
pub open spec fn is_hidden(e: DesktopEntry) -> bool {
    e.attributes is Some && e.attributes->0 & FILE_ATTRIBUTE_HIDDEN != 0
}

/// The label of an entry: its stem, else its file name, else `?`.
pub open spec fn entry_label(e: DesktopEntry) -> Seq<char> {
    match e.stem {
        Some(s) => s@,
        None => match e.file_name {
            Some(f) => f@,
            None => "?"@,
        },
    }
}

/// A shown item: id and path are the entry's path (the icon is looked up
/// afterwards).
pub open spec fn item_of(e: DesktopEntry) -> (Seq<char>, Seq<char>, Seq<char>, bool) {
    (e.path@, entry_label(e), e.path@, e.is_dir)
}

/// The shown entries, in directory order.
pub open spec fn shown_items(es: Seq<DesktopEntry>) -> Seq<(Seq<char>, Seq<char>, Seq<char>, bool)>
    decreases es.len(),
{
    if es.len() == 0 {
        Seq::empty()
    } else {
        let prev = shown_items(es.drop_last());
        if is_hidden(es.last()) {
            prev
        } else {
            prev.push(item_of(es.last()))
        }
    }
}

/// Sort key of an item: folders first, then the lower-case label.
pub open spec fn grid_keys(items: Seq<(Seq<char>, Seq<char>, Seq<char>, bool)>) -> Seq<(usize, Seq<char>)> {
    Seq::new(
        items.len(),
        |i: int| (if items[i].3 { 0usize } else { 1usize }, unicode_lowercase(items[i].1)),
    )
}

pub open spec fn desktop_item_view(d: DesktopItem) -> (Seq<char>, Seq<char>, Seq<char>, bool) {
    (d.id@, d.name@, d.path@, d.is_folder)
}

fn label_of(e: &DesktopEntry) -> (r: String)
    ensures
        r@ == entry_label(*e),
{
    match &e.stem {
        Some(s) => s.clone(),
        None => match &e.file_name {
            Some(f) => f.clone(),
            None => "?".to_owned(),
        },
    }
}

/// The desktop grid from the entries of the Desktop folders (the user's,
/// then the public one): hidden entries left out, folders first, then by
/// lower-case label, ties in directory order. Icons are left unset.
pub fn scan_desktop(entries: &Vec<DesktopEntry>) -> (r: Vec<DesktopItem>)
    ensures
        exists|o: Seq<usize>|
            #[trigger] is_sorted_order(grid_keys(shown_items(entries@)), o) && r@.len() == o.len()
                && forall|k: int|
                0 <= k < r@.len() ==> desktop_item_view(#[trigger] r@[k]) == shown_items(
                    entries@,
                )[o[k] as int] && r@[k].icon_data_url is None,
{
    let mut items: Vec<DesktopItem> = Vec::new();
    let mut i: usize = 0;
    proof {
        assert(entries@.take(0) =~= Seq::<DesktopEntry>::empty());
    }
    while i < entries.len()
        invariant
            i <= entries@.len(),
            items@.len() == shown_items(entries@.take(i as int)).len(),
            forall|k: int|
                0 <= k < items@.len() ==> desktop_item_view(#[trigger] items@[k]) == shown_items(
                    entries@.take(i as int),
                )[k],
        decreases entries@.len() - i,
    {
        proof {
            assert(entries@.take(i + 1).drop_last() =~= entries@.take(i as int));
        }
        let e = &entries[i];
        let hidden = match e.attributes {
            Some(a) => a & FILE_ATTRIBUTE_HIDDEN != 0,
            None => false,
        };
        if !hidden {
            items.push(
                DesktopItem {
                    id: e.path.clone(),
                    name: label_of(e),
                    path: e.path.clone(),
                    icon_data_url: None,
                    is_folder: e.is_dir,
                },
            );
        }
        i += 1;
    }
    proof {
        assert(entries@.take(entries@.len() as int) =~= entries@);
    }
    let ghost shown = shown_items(entries@);
    let mut nums: Vec<usize> = Vec::new();
    let mut texts: Vec<Vec<char>> = Vec::new();
    let mut j: usize = 0;
    while j < items.len()
        invariant
            j <= items@.len(),
            items@.len() == shown.len(),
            forall|k: int| 0 <= k < items@.len() ==> desktop_item_view(#[trigger] items@[k]) == shown[k],
            nums@.len() == j,
            texts@.len() == j,
            forall|k: int| 0 <= k < j ==> (#[trigger] key_seq(nums@, texts@)[k]) == grid_keys(shown)[k],
        decreases items@.len() - j,
    {
        let it = &items[j];
        let lower = to_lowercase(it.name.as_str());
        let ghost before_nums = nums@;
        let ghost before_texts = texts@;
        nums.push(if it.is_folder { 0 } else { 1 });
        texts.push(str_chars(lower.as_str()));
        proof {
            assert(desktop_item_view(items@[j as int]) == shown[j as int]);
            assert forall|k: int| 0 <= k < j + 1 implies (#[trigger] key_seq(nums@, texts@)[k])
                == grid_keys(shown)[k] by {
                if k < j {
                    assert(key_seq(nums@, texts@)[k] == key_seq(before_nums, before_texts)[k]);
                }
            }
        }
        j += 1;
    }
    proof {
        assert(key_seq(nums@, texts@) =~= grid_keys(shown));
    }
    let order = stable_order(&nums, &texts);
    let mut out: Vec<DesktopItem> = Vec::new();
    let mut k: usize = 0;
    while k < order.len()
        invariant
            k <= order@.len(),
            is_sorted_order(grid_keys(shown), order@),
            items@.len() == shown.len(),
            forall|m: int| 0 <= m < items@.len() ==> desktop_item_view(#[trigger] items@[m]) == shown[m],
            out@.len() == k,
            forall|m: int|
                0 <= m < k ==> desktop_item_view(#[trigger] out@[m]) == shown[order@[m] as int]
                    && out@[m].icon_data_url is None,
        decreases order@.len() - k,
    {
        let idx = order[k];
        let it = &items[idx];
        out.push(
            DesktopItem {
                id: it.id.clone(),
                name: it.name.clone(),
                path: it.path.clone(),
                icon_data_url: None,
                is_folder: it.is_folder,
            },
        );
        proof {
            assert(desktop_item_view(items@[idx as int]) == shown[idx as int]);
        }
        k += 1;
    }
    out
}

/// The name tried for a new item when the wanted one is taken:
/// `stem (n).ext`, or `stem (n)` without an extension.
pub fn candidate_name(stem: &str, extension: Option<&str>, n: u64) -> (r: String)
    ensures
        r@ == stem@ + " ("@ + dec(n as nat) + ")"@ + match extension {
            Some(e) => "."@ + e@,
            None => Seq::empty(),
        },
{
    let mut r = stem.to_owned();
    r.append(" (");
    crate::text::append_chars(&mut r, u64_to_dec(n).as_slice());
    r.append(")");
    match extension {
        Some(e) => {
            r.append(".");
            r.append(e);
        },
        None => {},
    }
    r
}

pub open spec fn opt_chars(o: Option<&str>) -> Option<Seq<char>> {
    match o {
        Some(e) => Some(e@),
        None => None,
    }
}

/// The `n`-th numbered name of an item: `stem (n).ext`, or `stem (n)`.
pub open spec fn numbered_name(stem: Seq<char>, ext: Option<Seq<char>>, n: nat) -> Seq<char> {
    stem + " ("@ + dec(n) + ")"@ + match ext {
        Some(e) => "."@ + e,
        None => Seq::empty(),
    }
}

/// A name is taken when an existing entry has it, ignoring ASCII case.
pub open spec fn name_taken(taken: Seq<Seq<char>>, name: Seq<char>) -> bool {
    exists|i: int| 0 <= i < taken.len() && eq_ignore_ascii_case(#[trigger] taken[i], name)
}

pub open spec fn strings_of(v: Seq<String>) -> Seq<Seq<char>> {
    v.map_values(|s: String| s@)
}

/// `n` is the first number from 2 on whose numbered name is free.
pub open spec fn first_free_number(taken: Seq<Seq<char>>, stem: Seq<char>, ext: Option<Seq<char>>, n: nat) -> bool {
    &&& n >= 2
    &&& !name_taken(taken, numbered_name(stem, ext, n))
    &&& forall|m: nat| 2 <= m < n ==> name_taken(taken, #[trigger] numbered_name(stem, ext, m))
}

/// `t` already has the name of some numbered candidate below `n`.
pub open spec fn matched_before(t: Seq<char>, stem: Seq<char>, ext: Option<Seq<char>>, n: nat) -> bool {
    exists|m: nat| 2 <= m < n && eq_ignore_ascii_case(t, #[trigger] numbered_name(stem, ext, m))
}

/// How many taken names no candidate below `n` has used up.
pub open spec fn unmatched(ts: Seq<Seq<char>>, stem: Seq<char>, ext: Option<Seq<char>>, n: nat) -> nat
    decreases ts.len(),
{
    if ts.len() == 0 {
        0
    } else {
        unmatched(ts.drop_last(), stem, ext, n) + if matched_before(ts.last(), stem, ext, n) {
            0nat
        } else {
            1nat
        }
    }
}

proof fn lemma_case_eq_trans(a: Seq<char>, b: Seq<char>, c: Seq<char>)
    requires
        eq_ignore_ascii_case(a, b),
        eq_ignore_ascii_case(b, c),
    ensures
        eq_ignore_ascii_case(a, c),
        eq_ignore_ascii_case(c, a),
{
    assert forall|i: int| 0 <= i < a.len() implies #[trigger] ascii_lower(a[i]) == ascii_lower(c[i]) by {
        assert(ascii_lower(a[i]) == ascii_lower(b[i]));
        assert(ascii_lower(b[i]) == ascii_lower(c[i]));
    }
    assert forall|i: int| 0 <= i < c.len() implies #[trigger] ascii_lower(c[i]) == ascii_lower(a[i]) by {
        assert(ascii_lower(a[i]) == ascii_lower(b[i]));
        assert(ascii_lower(b[i]) == ascii_lower(c[i]));
    }
}

/// Two numbered names that are equal ignoring ASCII case have the same
/// number.
proof fn lemma_numbered_distinct(stem: Seq<char>, ext: Option<Seq<char>>, a: nat, b: nat)
    requires
        eq_ignore_ascii_case(numbered_name(stem, ext, a), numbered_name(stem, ext, b)),
    ensures
        a == b,
{
    let p = stem + " ("@;
    let tail = ")"@ + match ext {
        Some(e) => "."@ + e,
        None => Seq::empty(),
    };
    let da = dec(a);
    let db = dec(b);
    let x = numbered_name(stem, ext, a);
    let y = numbered_name(stem, ext, b);
    assert(x =~= p + da + tail);
    assert(y =~= p + db + tail);
    assert(da.len() == db.len());
    lemma_dec_is_digits(a);
    lemma_dec_is_digits(b);
    assert forall|i: int| 0 <= i < da.len() implies da[i] == db[i] by {
        let k = p.len() + i;
        assert(x[k] == da[i]);
        assert(y[k] == db[i]);
        assert(ascii_lower(x[k]) == ascii_lower(y[k]));
        assert(is_digit(da[i]) && is_digit(db[i]));
    }
    assert(da =~= db);
    lemma_dec_value(a);
    lemma_dec_value(b);
}

proof fn lemma_unmatched_bounded(ts: Seq<Seq<char>>, stem: Seq<char>, ext: Option<Seq<char>>, n: nat)
    ensures
        unmatched(ts, stem, ext, n) <= ts.len(),
    decreases ts.len(),
{
    if ts.len() > 0 {
        lemma_unmatched_bounded(ts.drop_last(), stem, ext, n);
    }
}

/// Moving past candidate `n` uses up every taken name equal to it, and
/// at least one when it is taken.
proof fn lemma_unmatched_step(ts: Seq<Seq<char>>, stem: Seq<char>, ext: Option<Seq<char>>, n: nat)
    requires
        n >= 2,
    ensures
        unmatched(ts, stem, ext, n + 1) <= unmatched(ts, stem, ext, n),
        name_taken(ts, numbered_name(stem, ext, n)) ==> unmatched(ts, stem, ext, n + 1) < unmatched(
            ts,
            stem,
            ext,
            n,
        ),
    decreases ts.len(),
{
    if ts.len() > 0 {
        let d = ts.drop_last();
        let t = ts.last();
        lemma_unmatched_step(d, stem, ext, n);
        if matched_before(t, stem, ext, n) {
            let m = choose|m: nat| 2 <= m < n && eq_ignore_ascii_case(t, #[trigger] numbered_name(stem, ext, m));
            assert(2 <= m < n + 1 && eq_ignore_ascii_case(t, numbered_name(stem, ext, m)));
        }
        if name_taken(ts, numbered_name(stem, ext, n)) {
            let i = choose|i: int| 0 <= i < ts.len() && eq_ignore_ascii_case(#[trigger] ts[i], numbered_name(stem, ext, n));
            if i == ts.len() - 1 {
                assert(eq_ignore_ascii_case(t, numbered_name(stem, ext, n)));
                assert(matched_before(t, stem, ext, n + 1));
                if matched_before(t, stem, ext, n) {
                    let m = choose|m: nat| 2 <= m < n && eq_ignore_ascii_case(t, #[trigger] numbered_name(stem, ext, m));
                    lemma_case_eq_trans(numbered_name(stem, ext, n), t, numbered_name(stem, ext, m));
                    lemma_case_eq_trans(t, numbered_name(stem, ext, n), numbered_name(stem, ext, n));
                    assert(eq_ignore_ascii_case(numbered_name(stem, ext, n), t));
                    lemma_numbered_distinct(stem, ext, n, m);
                }
            } else {
                assert(d[i] == ts[i]);
                assert(name_taken(d, numbered_name(stem, ext, n)));
            }
        }
    }
}

fn name_is_taken(taken: &Vec<String>, name: &str) -> (b: bool)
    ensures
        b == name_taken(strings_of(taken@), name@),
{
    let ghost ts = strings_of(taken@);
    let mut i: usize = 0;
    while i < taken.len()
        invariant
            i <= taken@.len(),
            ts == strings_of(taken@),
            forall|j: int| 0 <= j < i ==> !eq_ignore_ascii_case(#[trigger] ts[j], name@),
        decreases taken@.len() - i,
    {
        if str_eq_ignore_ascii_case(taken[i].as_str(), name) {
            assert(ts[i as int] == taken@[i as int]@);
            return true;
        }
        assert(ts[i as int] == taken@[i as int]@);
        i += 1;
    }
    false
}

/// The name a new item gets when `name` (whose stem and extension are
/// given) may already be taken by an entry in `taken`: `name` itself when
/// it is free, else the first free `stem (n).ext` for n = 2, 3, ….
pub fn new_item_name(name: &str, stem: &str, extension: Option<&str>, taken: &Vec<String>) -> (r: String)
    requires
        taken@.len() + 2 <= u64::MAX,
    ensures
        !name_taken(strings_of(taken@), name@) ==> r@ == name@,
        name_taken(strings_of(taken@), name@) ==> exists|n: nat|
            first_free_number(strings_of(taken@), stem@, opt_chars(extension), n) && r@
                == #[trigger] numbered_name(stem@, opt_chars(extension), n),
{
    if !name_is_taken(taken, name) {
        return name.to_owned();
    }
    let ghost ts = strings_of(taken@);
    let ghost ext = opt_chars(extension);
    proof {
        lemma_unmatched_bounded(ts, stem@, ext, 2);
    }
    let mut n: u64 = 2;
    loop
        invariant
            2 <= n,
            ts == strings_of(taken@),
            name_taken(ts, name@),
            ext == opt_chars(extension),
            ts.len() == taken@.len(),
            taken@.len() + 2 <= u64::MAX,
            forall|m: nat| 2 <= m < n ==> name_taken(ts, #[trigger] numbered_name(stem@, ext, m)),
            (n - 2) + unmatched(ts, stem@, ext, n as nat) <= ts.len(),
        decreases unmatched(ts, stem@, ext, n as nat),
    {
        let c = candidate_name(stem, extension, n);
        assert(c@ =~= numbered_name(stem@, ext, n as nat));
        if !name_is_taken(taken, c.as_str()) {
            assert(first_free_number(ts, stem@, ext, n as nat));
            return c;
        }
        proof {
            lemma_unmatched_step(ts, stem@, ext, n as nat);
        }
        n = n + 1;
    }
}

/// The path a click on a desktop item launches: the path of the cached
/// item with that id, else the id itself when such a path exists; never
/// an item found some other way.
pub open spec fn launch_path(items: Seq<DesktopItem>, id: Seq<char>, id_exists: bool) -> Option<Seq<char>> {
    if exists|i: int| 0 <= i < items.len() && items[i].id@ == id {
        let i = choose|i: int|
            0 <= i < items.len() && items[i].id@ == id && forall|j: int|
                0 <= j < i ==> items[j].id@ != id;
        Some(items[i].path@)
    } else if id_exists {
        Some(id)
    } else {
        None
    }
}

pub open spec fn opt_text(o: Option<String>) -> Option<Seq<char>> {
    match o {
        Some(s) => Some(s@),
        None => None,
    }
}

/// The path to launch for a click on the item with `item_id`.
pub fn launch_target(items: &Vec<DesktopItem>, item_id: &str, id_exists: bool) -> (r: Option<String>)
    ensures
        opt_text(r) == launch_path(items@, item_id@, id_exists),
{
    let mut i: usize = 0;
    while i < items.len()
        invariant
            i <= items@.len(),
            forall|j: int| 0 <= j < i ==> items@[j].id@ != item_id@,
        decreases items@.len() - i,
    {
        let same = crate::text::str_equal(items[i].id.as_str(), item_id);
        if same {
            proof {
                assert(items@[i as int].id@ == item_id@ && forall|j: int|
                    0 <= j < i ==> items@[j].id@ != item_id@);
                let c = choose|c: int|
                    0 <= c < items@.len() && items@[c].id@ == item_id@ && forall|j: int|
                        0 <= j < c ==> items@[j].id@ != item_id@;
                assert(c == i) by {
                    if c < i {
                        assert(items@[c].id@ != item_id@);
                    } else if c > i {
                        assert(items@[i as int].id@ != item_id@);
                    }
                }
            }
            return Some(items[i].path.clone());
        }
        i += 1;
    }
    if id_exists {
        Some(item_id.to_owned())
    } else {
        None
    }
}

/// A click launches either a cached item's own path or the clicked id:
/// never the path of an item with a different id.
pub proof fn law_launch_never_by_name(items: Seq<DesktopItem>, id: Seq<char>, id_exists: bool)
    ensures
        match launch_path(items, id, id_exists) {
            Some(p) => p == id || exists|i: int|
                0 <= i < items.len() && items[i].id@ == id && items[i].path@ == p,
            None => !id_exists,
        },
{
    if exists|i: int| 0 <= i < items.len() && items[i].id@ == id {
        let w = choose|i: int| 0 <= i < items.len() && items[i].id@ == id;
        lemma_first_id(items, id, w);
    }
}

proof fn lemma_first_id(items: Seq<DesktopItem>, id: Seq<char>, w: int)
    requires
        0 <= w < items.len(),
        items[w].id@ == id,
    ensures
        exists|i: int|
            0 <= i < items.len() && items[i].id@ == id && forall|j: int|
                0 <= j < i ==> items[j].id@ != id,
    decreases w,
{
    if exists|j: int| 0 <= j < w && items[j].id@ == id {
        let j = choose|j: int| 0 <= j < w && items[j].id@ == id;
        lemma_first_id(items, id, j);
    } else {
        assert(forall|j: int| 0 <= j < w ==> items[j].id@ != id);
    }
}

} // verus!
