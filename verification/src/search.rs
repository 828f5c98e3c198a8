//! Program search of the launcher: built-in system shortcuts, Start Menu
//! shortcuts and desktop entries matched against a query, deduplicated,
//! given distinct labels, ranked and cut to the first results.
use vstd::prelude::*;
use crate::peek::clone_opt_string;
use vstd::utf8::encode_utf8;
use crate::order::{is_sorted_order, key_seq, law_sorted_order_unique, stable_order};
use crate::text::{
    chars_contains, chars_find, concat_str, contains_sub, first_occurrence, occurs_at, str_chars,
    string_from_chars, to_lowercase,
    trim_ws, unicode_lowercase,
};

verus! {

broadcast use vstd::string::group_string_axioms;

/// One search result as shown by the launcher.
pub struct SearchResult {
    pub id: String,
    pub name: String,
    pub path: String,
    pub icon_data_url: Option<String>,
    pub is_folder: bool,
}

/// One file or directory met while walking a program directory, as the
/// walker reads it from the file system.
pub struct ProgramEntry {
    /// Full path.
    pub path: String,
    /// File name without its extension (empty when it has none).
    pub stem: String,
    /// Extension without the dot (empty when it has none).
    pub extension: String,
    /// Last component of the path.
    pub file_name: Option<String>,
    pub is_dir: bool,
}

/// A result together with the file name its label may fall back to.
pub struct Found {
    pub result: SearchResult,
    pub file_name: Option<String>,
}

/// A result as the model sees it, with the key it is deduplicated by.
pub struct Hit {
    pub key: Seq<char>,
    pub id: Seq<char>,
    pub name: Seq<char>,
    pub path: Seq<char>,
    pub is_folder: bool,
    pub file_name: Option<Seq<char>>,
}

pub open spec fn opt_str(o: Option<String>) -> Option<Seq<char>> {
    match o {
        Some(s) => Some(s@),
        None => None,
    }
}

/// The view of a found result (its icon is always unset at this stage).
pub open spec fn found_hit(f: Found, key: Seq<char>) -> Hit {
    Hit {
        key,
        id: f.result.id@,
        name: f.result.name@,
        path: f.result.path@,
        is_folder: f.result.is_folder,
        file_name: opt_str(f.file_name),
    }
}

/// The built-in shortcuts: display name and command.
pub open spec fn shortcut_table() -> Seq<(Seq<char>, Seq<char>)> {
    seq![
        ("control panel"@, "control.exe"@),
        ("add or remove programs"@, "appwiz.cpl"@),
        ("programs and features"@, "appwiz.cpl"@),
        ("uninstall a program"@, "appwiz.cpl"@),
        ("system properties"@, "sysdm.cpl"@),
        ("power options"@, "powercfg.cpl"@),
        ("mouse properties"@, "main.cpl"@),
        ("sound"@, "mmsys.cpl"@),
        ("audio devices"@, "mmsys.cpl"@),
        ("device manager"@, "devmgmt.msc"@),
        ("task manager"@, "taskmgr.exe"@),
        ("registry editor"@, "regedit.exe"@),
        ("services"@, "services.msc"@),
        ("event viewer"@, "eventvwr.msc"@),
        ("disk management"@, "diskmgmt.msc"@),
        ("computer management"@, "compmgmt.msc"@),
        ("local security policy"@, "secpol.msc"@),
        ("group policy"@, "gpedit.msc"@),
        ("command prompt"@, "cmd.exe"@),
        ("powershell"@, "powershell.exe"@),
        ("windows terminal"@, "wt.exe"@),
        ("settings"@, "ms-settings:"@),
        ("display settings"@, "ms-settings:display"@),
        ("network settings"@, "ms-settings:network"@),
        ("bluetooth"@, "ms-settings:bluetooth"@),
        ("apps"@, "ms-settings:appsfeatures"@),
        ("accounts"@, "ms-settings:accounts"@),
        ("personalization"@, "ms-settings:personalization"@),
        ("windows update"@, "ms-settings:windowsupdate"@),
        ("date and time"@, "timedate.cpl"@),
        ("internet options"@, "inetcpl.cpl"@),
        ("user accounts"@, "netplwiz"@),
        ("system information"@, "msinfo32.exe"@),
        ("file explorer options"@, "control.exe folders"@),
        ("file explorer"@, "explorer.exe"@),
        ("recycle bin"@, "explorer.exe shell:RecycleBinFolder"@),
        ("this pc"@, "explorer.exe"@),
        ("snipping tool"@, "snippingtool.exe"@),
        ("calculator"@, "calc.exe"@),
        ("notepad"@, "notepad.exe"@),
        ("paint"@, "mspaint.exe"@),
        ("magnifier"@, "magnify.exe"@),
        ("narrator"@, "narrator.exe"@),
        ("on-screen keyboard"@, "osk.exe"@),
        ("reboot"@, "flatui:reboot"@),
        ("shutdown"@, "flatui:shutdown"@),
        ("add flatui hush to startup"@, "flatui:addstartup"@),
        ("remove flatui hush from startup"@, "flatui:removestartup"@),
    ]
}

pub open spec fn shortcut_hit(name: Seq<char>, cmd: Seq<char>) -> Hit {
    Hit {
        key: unicode_lowercase(name),
        id: "sys:"@ + cmd,
        name,
        path: cmd,
        is_folder: false,
        file_name: Some(cmd),
    }
}

/// The shortcuts whose name contains the query, in table order.
pub open spec fn shortcut_hits(t: Seq<(Seq<char>, Seq<char>)>, q: Seq<char>) -> Seq<Hit>
    decreases t.len(),
{
    if t.len() == 0 {
        Seq::empty()
    } else {
        let prev = shortcut_hits(t.drop_last(), q);
        if contains_sub(t.last().0, q) {
            prev.push(shortcut_hit(t.last().0, t.last().1))
        } else {
            prev
        }
    }
}

pub open spec fn is_program_extension(ext: Seq<char>) -> bool {
    ext == seq!['l', 'n', 'k'] || ext == seq!['e', 'x', 'e']
}

/// An entry is offered when it is a `.lnk`/`.exe` file (or a directory,
/// where directories are offered), has a non-empty stem, and its stem in
/// lower case contains the query.
pub open spec fn entry_accepted(e: ProgramEntry, q: Seq<char>, include_dirs: bool) -> bool {
    &&& if e.is_dir {
        include_dirs
    } else {
        is_program_extension(e.extension@)
    }
    &&& e.stem@.len() > 0
    &&& contains_sub(unicode_lowercase(e.stem@), q)
}

pub open spec fn entry_hit(e: ProgramEntry) -> Hit {
    Hit {
        key: unicode_lowercase(e.path@),
        id: e.path@,
        name: e.stem@,
        path: e.path@,
        is_folder: e.is_dir,
        file_name: opt_str(e.file_name),
    }
}

/// The accepted entries, in walk order.
pub open spec fn entry_hits(es: Seq<ProgramEntry>, q: Seq<char>, include_dirs: bool) -> Seq<Hit>
    decreases es.len(),
{
    if es.len() == 0 {
        Seq::empty()
    } else {
        let prev = entry_hits(es.drop_last(), q, include_dirs);
        if entry_accepted(es.last(), q, include_dirs) {
            prev.push(entry_hit(es.last()))
        } else {
            prev
        }
    }
}

pub open spec fn has_key(hs: Seq<Hit>, k: Seq<char>) -> bool {
    exists|j: int| 0 <= j < hs.len() && (#[trigger] hs[j]).key == k
}

/// Each hit whose key no earlier hit has.
pub open spec fn first_per_key(hs: Seq<Hit>) -> Seq<Hit>
    decreases hs.len(),
{
    if hs.len() == 0 {
        Seq::empty()
    } else {
        let prev = first_per_key(hs.drop_last());
        if has_key(hs.drop_last(), hs.last().key) {
            prev
        } else {
            prev.push(hs.last())
        }
    }
}

proof fn lemma_first_per_key_keys(hs: Seq<Hit>, k: Seq<char>)
    ensures
        has_key(first_per_key(hs), k) == has_key(hs, k),
    decreases hs.len(),
{
    if hs.len() > 0 {
        let d = hs.drop_last();
        lemma_first_per_key_keys(d, k);
        let f = first_per_key(hs);
        let fd = first_per_key(d);
        if has_key(d, k) {
            let j = choose|j: int| 0 <= j < d.len() && (#[trigger] d[j]).key == k;
            assert(hs[j] == d[j]);
        }
        if has_key(hs, k) {
            let j = choose|j: int| 0 <= j < hs.len() && (#[trigger] hs[j]).key == k;
            if j < d.len() {
                assert(d[j] == hs[j]);
            }
        }
        if has_key(fd, k) {
            let j = choose|j: int| 0 <= j < fd.len() && (#[trigger] fd[j]).key == k;
            if !has_key(d, hs.last().key) {
                assert(f[j] == fd[j]);
            }
        }
        if !has_key(d, hs.last().key) {
            assert(f[fd.len() as int] == hs.last());
            if has_key(f, k) {
                let j = choose|j: int| 0 <= j < f.len() && (#[trigger] f[j]).key == k;
                if j < fd.len() {
                    assert(fd[j] == f[j]);
                }
            }
        }
    }
}

/// The seen keys are those of the kept hits, in order.
pub open spec fn keys_of(seen: Seq<String>, kept: Seq<Hit>) -> bool {
    &&& seen.len() == kept.len()
    &&& forall|j: int| 0 <= j < seen.len() ==> (#[trigger] seen[j])@ == kept[j].key
}

pub open spec fn found_hits(found: Seq<Found>, seen: Seq<String>) -> Seq<Hit> {
    Seq::new(found.len(), |j: int| found_hit(found[j], seen[j]@))
}

fn built_in_shortcuts() -> (t: [(&'static str, &'static str); 48])
    ensures
        forall|i: int|
            0 <= i < 48 ==> (#[trigger] t@[i]).0@ == shortcut_table()[i].0 && t@[i].1@
                == shortcut_table()[i].1,
{
    [
        ("control panel", "control.exe"),
        ("add or remove programs", "appwiz.cpl"),
        ("programs and features", "appwiz.cpl"),
        ("uninstall a program", "appwiz.cpl"),
        ("system properties", "sysdm.cpl"),
        ("power options", "powercfg.cpl"),
        ("mouse properties", "main.cpl"),
        ("sound", "mmsys.cpl"),
        ("audio devices", "mmsys.cpl"),
        ("device manager", "devmgmt.msc"),
        ("task manager", "taskmgr.exe"),
        ("registry editor", "regedit.exe"),
        ("services", "services.msc"),
        ("event viewer", "eventvwr.msc"),
        ("disk management", "diskmgmt.msc"),
        ("computer management", "compmgmt.msc"),
        ("local security policy", "secpol.msc"),
        ("group policy", "gpedit.msc"),
        ("command prompt", "cmd.exe"),
        ("powershell", "powershell.exe"),
        ("windows terminal", "wt.exe"),
        ("settings", "ms-settings:"),
        ("display settings", "ms-settings:display"),
        ("network settings", "ms-settings:network"),
        ("bluetooth", "ms-settings:bluetooth"),
        ("apps", "ms-settings:appsfeatures"),
        ("accounts", "ms-settings:accounts"),
        ("personalization", "ms-settings:personalization"),
        ("windows update", "ms-settings:windowsupdate"),
        ("date and time", "timedate.cpl"),
        ("internet options", "inetcpl.cpl"),
        ("user accounts", "netplwiz"),
        ("system information", "msinfo32.exe"),
        ("file explorer options", "control.exe folders"),
        ("file explorer", "explorer.exe"),
        ("recycle bin", "explorer.exe shell:RecycleBinFolder"),
        ("this pc", "explorer.exe"),
        ("snipping tool", "snippingtool.exe"),
        ("calculator", "calc.exe"),
        ("notepad", "notepad.exe"),
        ("paint", "mspaint.exe"),
        ("magnifier", "magnify.exe"),
        ("narrator", "narrator.exe"),
        ("on-screen keyboard", "osk.exe"),
        ("reboot", "flatui:reboot"),
        ("shutdown", "flatui:shutdown"),
        ("add flatui hush to startup", "flatui:addstartup"),
        ("remove flatui hush from startup", "flatui:removestartup"),
    ]
}

proof fn lemma_found_hits_push(found: Seq<Found>, seen: Seq<String>, f: Found, k: String)
    requires
        found.len() == seen.len(),
    ensures
        found_hits(found.push(f), seen.push(k)) == found_hits(found, seen).push(found_hit(f, k@)),
{
    assert(found_hits(found.push(f), seen.push(k)) =~= found_hits(found, seen).push(
        found_hit(f, k@),
    ));
}

/// Keeps `f` unless a result with the same key was kept before.
fn keep_first(
    found: &mut Vec<Found>,
    seen: &mut Vec<String>,
    f: Found,
    key: String,
    Ghost(prev): Ghost<Seq<Hit>>,
)
    requires
        found_hits(old(found)@, old(seen)@) == first_per_key(prev),
        keys_of(old(seen)@, first_per_key(prev)),
        old(found)@.len() == old(seen)@.len(),
    ensures
        found_hits(final(found)@, final(seen)@) == first_per_key(prev.push(found_hit(f, key@))),
        keys_of(final(seen)@, first_per_key(prev.push(found_hit(f, key@)))),
        final(found)@.len() == final(seen)@.len(),
{
    let ghost h = found_hit(f, key@);
    let ghost hs = prev.push(h);
    proof {
        assert(hs.drop_last() == prev);
        lemma_first_per_key_keys(prev, key@);
    }
    let mut i: usize = 0;
    while i < seen.len() && seen[i] != key
        invariant
            i <= seen@.len(),
            keys_of(seen@, first_per_key(prev)),
            forall|j: int| 0 <= j < i ==> (#[trigger] seen@[j])@ != key@,
        decreases seen@.len() - i,
    {
        i += 1;
    }
    let dup = i < seen.len();
    proof {
        if dup {
            assert(first_per_key(prev)[i as int].key == key@);
            assert(has_key(first_per_key(prev), key@));
        } else {
            if has_key(first_per_key(prev), key@) {
                let j = choose|j: int|
                    0 <= j < first_per_key(prev).len() && (#[trigger] first_per_key(prev)[j]).key
                        == key@;
                assert(seen@[j]@ == key@);
            }
            assert(!has_key(prev, h.key));
        }
    }
    if !dup {
        proof {
            lemma_found_hits_push(found@, seen@, f, key);
        }
        found.push(f);
        seen.push(key);
        proof {
            let fp = first_per_key(hs);
            assert(fp == first_per_key(prev).push(h));
            assert forall|j: int| 0 <= j < seen@.len() implies (#[trigger] seen@[j])@ == fp[j].key by {
                if j < seen@.len() - 1 {
                    assert(seen@[j] == old(seen)@[j]);
                }
            }
        }
    }
}

fn is_program_extension_exec(ext: &str) -> (r: bool)
    ensures
        r == is_program_extension(ext@),
{
    let c = str_chars(ext);
    if c.len() != 3 {
        return false;
    }
    let lnk = c[0] == 'l' && c[1] == 'n' && c[2] == 'k';
    let exe = c[0] == 'e' && c[1] == 'x' && c[2] == 'e';
    proof {
        if lnk {
            assert(c@ == seq!['l', 'n', 'k']);
        }
        if exe {
            assert(c@ == seq!['e', 'x', 'e']);
        }
    }
    lnk || exe
}

/// Whether `needle` occurs in `hay`.
fn str_contains(hay: &str, needle: &[char]) -> (r: bool)
    ensures
        r == contains_sub(hay@, needle@),
{
    let h = str_chars(hay);
    chars_contains(h.as_slice(), needle)
}

/// Keeps the built-in shortcuts whose name contains `q`.
fn collect_shortcuts(q: &[char], found: &mut Vec<Found>, seen: &mut Vec<String>)
    requires
        old(found)@.len() == 0,
        old(seen)@.len() == 0,
    ensures
        found_hits(final(found)@, final(seen)@) == first_per_key(
            shortcut_hits(shortcut_table(), q@),
        ),
        keys_of(final(seen)@, first_per_key(shortcut_hits(shortcut_table(), q@))),
        final(found)@.len() == final(seen)@.len(),
{
    let t = built_in_shortcuts();
    let ghost table = shortcut_table();
    proof {
        assert(table.len() == 48);
        assert(table.take(0) == Seq::<(Seq<char>, Seq<char>)>::empty());
        assert(found_hits(found@, seen@) =~= Seq::<Hit>::empty());
    }
    let mut i: usize = 0;
    while i < 48
        invariant
            i <= 48,
            table == shortcut_table(),
            table.len() == 48,
            forall|k: int|
                0 <= k < 48 ==> (#[trigger] t@[k]).0@ == table[k].0 && t@[k].1@ == table[k].1,
            found_hits(found@, seen@) == first_per_key(shortcut_hits(table.take(i as int), q@)),
            keys_of(seen@, first_per_key(shortcut_hits(table.take(i as int), q@))),
            found@.len() == seen@.len(),
        decreases 48 - i,
    {
        let name = t[i].0;
        let cmd = t[i].1;
        let ghost before = shortcut_hits(table.take(i as int), q@);
        proof {
            assert(table.take(i + 1).drop_last() == table.take(i as int));
            assert(table.take(i + 1).last() == table[i as int]);
        }
        if str_contains(name, q) {
            let f = Found {
                result: SearchResult {
                    id: concat_str("sys:", cmd),
                    name: name.to_owned(),
                    path: cmd.to_owned(),
                    icon_data_url: None,
                    is_folder: false,
                },
                file_name: Some(cmd.to_owned()),
            };
            let key = to_lowercase(name);
            proof {
                assert(found_hit(f, key@) == shortcut_hit(table[i as int].0, table[i as int].1));
            }
            keep_first(found, seen, f, key, Ghost(before));
        }
        i += 1;
    }
    proof {
        assert(table.take(48) == table);
    }
}

/// Keeps the entries of one walked directory tree that match `q`.
fn walk_programs(
    entries: &Vec<ProgramEntry>,
    q: &[char],
    include_dirs: bool,
    found: &mut Vec<Found>,
    seen: &mut Vec<String>,
    Ghost(prev): Ghost<Seq<Hit>>,
)
    requires
        found_hits(old(found)@, old(seen)@) == first_per_key(prev),
        keys_of(old(seen)@, first_per_key(prev)),
        old(found)@.len() == old(seen)@.len(),
    ensures
        found_hits(final(found)@, final(seen)@) == first_per_key(
            prev + entry_hits(entries@, q@, include_dirs),
        ),
        keys_of(final(seen)@, first_per_key(prev + entry_hits(entries@, q@, include_dirs))),
        final(found)@.len() == final(seen)@.len(),
{
    proof {
        assert(entries@.take(0) == Seq::<ProgramEntry>::empty());
        assert(prev + Seq::<Hit>::empty() == prev);
    }
    let mut i: usize = 0;
    while i < entries.len()
        invariant
            i <= entries@.len(),
            found_hits(found@, seen@) == first_per_key(
                prev + entry_hits(entries@.take(i as int), q@, include_dirs),
            ),
            keys_of(seen@, first_per_key(prev + entry_hits(entries@.take(i as int), q@, include_dirs))),
            found@.len() == seen@.len(),
        decreases entries@.len() - i,
    {
        let e = &entries[i];
        let ghost before = entry_hits(entries@.take(i as int), q@, include_dirs);
        proof {
            assert(entries@.take(i + 1).drop_last() == entries@.take(i as int));
            assert(entries@.take(i + 1).last() == entries@[i as int]);
        }
        let kind_ok = if e.is_dir {
            include_dirs
        } else {
            is_program_extension_exec(e.extension.as_str())
        };
        if kind_ok && !e.stem.as_str().is_empty() {
            let stem_lower = to_lowercase(e.stem.as_str());
            if str_contains(stem_lower.as_str(), q) {
                let f = Found {
                    result: SearchResult {
                        id: e.path.clone(),
                        name: e.stem.clone(),
                        path: e.path.clone(),
                        icon_data_url: None,
                        is_folder: e.is_dir,
                    },
                    file_name: clone_opt_string(&e.file_name),
                };
                let key = to_lowercase(e.path.as_str());
                proof {
                    assert(found_hit(f, key@) == entry_hit(entries@[i as int]));
                    assert((prev + before).push(entry_hit(entries@[i as int])) == prev
                        + before.push(entry_hit(entries@[i as int])));
                }
                keep_first(found, seen, f, key, Ghost(prev + before));
            }
        }
        i += 1;
    }
    proof {
        assert(entries@.take(entries@.len() as int) == entries@);
    }
}

// ---------------------------------------------------------------------------
// Distinct labels
// ---------------------------------------------------------------------------

/// How many hits carry the label `l` (compared in lower case).
pub open spec fn count_label(hs: Seq<Hit>, l: Seq<char>) -> nat
    decreases hs.len(),
{
    if hs.len() == 0 {
        0
    } else {
        count_label(hs.drop_last(), l) + if unicode_lowercase(hs.last().name) == l {
            1nat
        } else {
            0nat
        }
    }
}

/// A hit whose label it shares with another one shows its file name
/// instead, unless it is a folder.
pub open spec fn relabeled(hs: Seq<Hit>, h: Hit) -> Hit {
    if count_label(hs, unicode_lowercase(h.name)) > 1 && !h.is_folder && h.file_name is Some {
        Hit { name: h.file_name->0, ..h }
    } else {
        h
    }
}

pub open spec fn relabel_all(hs: Seq<Hit>) -> Seq<Hit> {
    Seq::new(hs.len(), |i: int| relabeled(hs, hs[i]))
}

/// What a result shows: id, label, path, icon, folder flag.
pub open spec fn result_view(r: SearchResult) -> (Seq<char>, Seq<char>, Seq<char>, Option<Seq<char>>, bool) {
    (r.id@, r.name@, r.path@, opt_str(r.icon_data_url), r.is_folder)
}

pub open spec fn hit_result(h: Hit) -> (Seq<char>, Seq<char>, Seq<char>, Option<Seq<char>>, bool) {
    (h.id, h.name, h.path, None, h.is_folder)
}

proof fn lemma_count_label_take(hs: Seq<Hit>, l: Seq<char>, i: int)
    requires
        0 <= i < hs.len(),
    ensures
        count_label(hs.take(i + 1), l) == count_label(hs.take(i), l) + if unicode_lowercase(
            hs[i].name,
        ) == l {
            1nat
        } else {
            0nat
        },
{
    assert(hs.take(i + 1).drop_last() == hs.take(i));
}

/// The number of results whose lower-case label equals `l`.
fn count_lower(lowers: &Vec<String>, l: &String, Ghost(hs): Ghost<Seq<Hit>>) -> (c: usize)
    requires
        lowers@.len() == hs.len(),
        forall|j: int| 0 <= j < hs.len() ==> (#[trigger] lowers@[j])@ == unicode_lowercase(hs[j].name),
    ensures
        c == count_label(hs, l@),
{
    let mut c: usize = 0;
    let mut j: usize = 0;
    proof {
        assert(hs.take(0) == Seq::<Hit>::empty());
    }
    while j < lowers.len()
        invariant
            j <= lowers@.len(),
            lowers@.len() == hs.len(),
            forall|k: int| 0 <= k < hs.len() ==> (#[trigger] lowers@[k])@ == unicode_lowercase(hs[k].name),
            c == count_label(hs.take(j as int), l@),
            c <= j,
        decreases lowers@.len() - j,
    {
        proof {
            lemma_count_label_take(hs, l@, j as int);
        }
        if lowers[j] == *l {
            c += 1;
        }
        j += 1;
    }
    proof {
        assert(hs.take(hs.len() as int) == hs);
    }
    c
}

/// Gives each found result its final label.
fn relabel(found: &Vec<Found>, Ghost(seen): Ghost<Seq<String>>) -> (r: Vec<SearchResult>)
    requires
        found@.len() == seen.len(),
    ensures
        r@.len() == found@.len(),
        forall|i: int|
            0 <= i < r@.len() ==> result_view(#[trigger] r@[i]) == hit_result(
                relabel_all(found_hits(found@, seen))[i],
            ),
{
    let ghost hs = found_hits(found@, seen);
    let mut lowers: Vec<String> = Vec::new();
    let mut i: usize = 0;
    while i < found.len()
        invariant
            i <= found@.len(),
            found@.len() == seen.len(),
            hs == found_hits(found@, seen),
            lowers@.len() == i,
            forall|j: int| 0 <= j < i ==> (#[trigger] lowers@[j])@ == unicode_lowercase(hs[j].name),
        decreases found@.len() - i,
    {
        let l = to_lowercase(found[i].result.name.as_str());
        lowers.push(l);
        i += 1;
    }
    let mut out: Vec<SearchResult> = Vec::new();
    let mut i: usize = 0;
    while i < found.len()
        invariant
            i <= found@.len(),
            found@.len() == seen.len(),
            hs == found_hits(found@, seen),
            lowers@.len() == hs.len(),
            forall|j: int| 0 <= j < hs.len() ==> (#[trigger] lowers@[j])@ == unicode_lowercase(hs[j].name),
            out@.len() == i,
            forall|j: int|
                0 <= j < i ==> result_view(#[trigger] out@[j]) == hit_result(relabel_all(hs)[j]),
        decreases found@.len() - i,
    {
        let f = &found[i];
        let count = count_lower(&lowers, &lowers[i], Ghost(hs));
        let name = if count > 1 && !f.result.is_folder {
            match &f.file_name {
                Some(n) => n.clone(),
                None => f.result.name.clone(),
            }
        } else {
            f.result.name.clone()
        };
        out.push(
            SearchResult {
                id: f.result.id.clone(),
                name,
                path: f.result.path.clone(),
                icon_data_url: None,
                is_folder: f.result.is_folder,
            },
        );
        i += 1;
    }
    out
}

// ---------------------------------------------------------------------------
// Ranking
// ---------------------------------------------------------------------------

/// Byte offset (in the lower-case label) at which the query first
/// occurs, as std's `str::find` reports it; `usize::MAX` when it does not.
pub open spec fn match_pos(name: Seq<char>, q: Seq<char>) -> usize {
    let l = unicode_lowercase(name);
    match first_occurrence(l, q) {
        Some(i) => encode_utf8(l.take(i)).len() as usize,
        None => usize::MAX,
    }
}

/// Rank key of each hit: where the query first occurs in its lower-case
/// label (a byte offset), then the lower-case label.
pub open spec fn rank_keys(hs: Seq<Hit>, q: Seq<char>) -> Seq<(usize, Seq<char>)> {
    Seq::new(hs.len(), |i: int| (match_pos(hs[i].name, q), unicode_lowercase(hs[i].name)))
}

/// `o` lists every hit once, by rank: an earlier match first, then the
/// lower-case label, then the order in which they were found.
pub open spec fn is_ranking(hs: Seq<Hit>, q: Seq<char>, o: Seq<usize>) -> bool {
    is_sorted_order(rank_keys(hs, q), o)
}

/// Length in UTF-8 bytes of the first `n` characters of `v`.
fn prefix_byte_len(v: &Vec<char>, n: usize) -> (r: usize)
    requires
        n <= v@.len(),
    ensures
        r == encode_utf8(v@.take(n as int)).len() as usize,
{
    let mut pre: Vec<char> = Vec::new();
    let mut j: usize = 0;
    while j < n
        invariant
            j <= n,
            n <= v@.len(),
            pre@ == v@.take(j as int),
        decreases n - j,
    {
        pre.push(v[j]);
        assert(v@.take(j + 1) == v@.take(j as int).push(v@[j as int]));
        j += 1;
    }
    let s = string_from_chars(pre.as_slice());
    s.as_str().len()
}

/// Byte offset of the first occurrence of `q` in `lower`, or `usize::MAX`.
fn match_position(lower: &Vec<char>, q: &Vec<char>) -> (p: usize)
    ensures
        p == (match first_occurrence(lower@, q@) {
            Some(i) => encode_utf8(lower@.take(i)).len() as usize,
            None => usize::MAX,
        }),
{
    match chars_find(lower.as_slice(), q.as_slice()) {
        Some(ci) => prefix_byte_len(lower, ci),
        None => usize::MAX,
    }
}

/// The query as matched: trimmed and lower-cased.
pub open spec fn search_query(query: Seq<char>) -> Seq<char> {
    unicode_lowercase(trim_ws(query))
}

/// Every match in finding order: shortcuts, then Start Menu entries,
/// then desktop entries.
pub open spec fn all_hits(q: Seq<char>, start_menu: Seq<ProgramEntry>, desktop: Seq<ProgramEntry>) -> Seq<Hit> {
    shortcut_hits(shortcut_table(), q) + entry_hits(start_menu, q, false) + entry_hits(desktop, q, true)
}

/// The deduplicated matches with their final labels, in finding order.
pub open spec fn labelled_hits(q: Seq<char>, start_menu: Seq<ProgramEntry>, desktop: Seq<ProgramEntry>) -> Seq<Hit> {
    relabel_all(first_per_key(all_hits(q, start_menu, desktop)))
}

/// Most results a search returns.
pub const MAX_RESULTS: usize = 20;

/// `r` shows the first ranked hits, at most `MAX_RESULTS` of them.
pub open spec fn shows_top(r: Seq<SearchResult>, hs: Seq<Hit>, o: Seq<usize>) -> bool {
    &&& r.len() == if hs.len() < MAX_RESULTS { hs.len() } else { MAX_RESULTS as nat }
    &&& forall|k: int| 0 <= k < r.len() ==> result_view(#[trigger] r[k]) == hit_result(hs[o[k] as int])
}

/// Whether a query searches at all: its trimmed, lower-cased text is not
/// empty (a blank query finds nothing without looking at any entry).
pub fn is_search_query(query: &str) -> (b: bool)
    ensures
        b == (search_query(query@).len() > 0),
{
    let trimmed = crate::text::trim_whitespace(query);
    let lowered = to_lowercase(trimmed.as_str());
    !lowered.as_str().is_empty()
}

/// Searches the built-in shortcuts, the Start Menu entries and the desktop
/// entries (each list in walk order) for `query`.
pub fn search_programs(query: &str, start_menu: &Vec<ProgramEntry>, desktop: &Vec<ProgramEntry>) -> (r: Vec<SearchResult>)
    ensures
        search_query(query@).len() == 0 ==> r@.len() == 0,
        search_query(query@).len() > 0 ==> exists|o: Seq<usize>|
            #[trigger] is_ranking(
                labelled_hits(search_query(query@), start_menu@, desktop@),
                search_query(query@),
                o,
            ) && shows_top(r@, labelled_hits(search_query(query@), start_menu@, desktop@), o),
{
    let trimmed = crate::text::trim_whitespace(query);
    let lowered = to_lowercase(trimmed.as_str());
    if lowered.as_str().is_empty() {
        return Vec::new();
    }
    let q = str_chars(lowered.as_str());
    let ghost qs = q@;
    let mut found: Vec<Found> = Vec::new();
    let mut seen: Vec<String> = Vec::new();
    collect_shortcuts(q.as_slice(), &mut found, &mut seen);
    walk_programs(start_menu, q.as_slice(), false, &mut found, &mut seen, Ghost(shortcut_hits(shortcut_table(), qs)));
    walk_programs(
        desktop,
        q.as_slice(),
        true,
        &mut found,
        &mut seen,
        Ghost(shortcut_hits(shortcut_table(), qs) + entry_hits(start_menu@, qs, false)),
    );
    let ghost hs = labelled_hits(qs, start_menu@, desktop@);
    let rel = relabel(&found, Ghost(seen@));
    let mut pos: Vec<usize> = Vec::new();
    let mut lows: Vec<Vec<char>> = Vec::new();
    let mut i: usize = 0;
    while i < rel.len()
        invariant
            i <= rel@.len(),
            rel@.len() == hs.len(),
            q@ == qs,
            forall|j: int| 0 <= j < rel@.len() ==> result_view(#[trigger] rel@[j]) == hit_result(hs[j]),
            pos@.len() == i,
            lows@.len() == i,
            forall|j: int| 0 <= j < i ==> #[trigger] pos@[j] == match_pos(hs[j].name, qs),
            forall|j: int| 0 <= j < i ==> (#[trigger] lows@[j])@ == unicode_lowercase(hs[j].name),
        decreases rel@.len() - i,
    {
        let lower = to_lowercase(rel[i].name.as_str());
        let l = str_chars(lower.as_str());
        proof {
            assert(result_view(rel@[i as int]) == hit_result(hs[i as int]));
        }
        pos.push(match_position(&l, &q));
        lows.push(l);
        i += 1;
    }
    proof {
        assert(key_seq(pos@, lows@) =~= rank_keys(hs, qs));
    }
    let order = stable_order(&pos, &lows);
    let n = if order.len() < MAX_RESULTS {
        order.len()
    } else {
        MAX_RESULTS
    };
    let mut out: Vec<SearchResult> = Vec::new();
    let mut k: usize = 0;
    while k < n
        invariant
            k <= n,
            n <= order@.len(),
            n == if hs.len() < MAX_RESULTS { hs.len() } else { MAX_RESULTS as nat },
            is_ranking(hs, qs, order@),
            rel@.len() == hs.len(),
            forall|j: int| 0 <= j < rel@.len() ==> result_view(#[trigger] rel@[j]) == hit_result(hs[j]),
            out@.len() == k,
            forall|j: int| 0 <= j < k ==> result_view(#[trigger] out@[j]) == hit_result(hs[order@[j] as int]),
        decreases n - k,
    {
        let idx = order[k];
        let r = &rel[idx];
        out.push(
            SearchResult {
                id: r.id.clone(),
                name: r.name.clone(),
                path: r.path.clone(),
                icon_data_url: None,
                is_folder: r.is_folder,
            },
        );
        proof {
            assert(result_view(rel@[idx as int]) == hit_result(hs[idx as int]));
        }
        k += 1;
    }
    proof {
        assert(shows_top(out@, hs, order@));
    }
    out
}

/// The ranking is a function of the hits and the query: any two orders
/// that both rank the same hits are the same order, so a search's result
/// is determined by its inputs.
pub proof fn law_ranking_is_unique(hs: Seq<Hit>, q: Seq<char>, o1: Seq<usize>, o2: Seq<usize>)
    requires
        is_ranking(hs, q, o1),
        is_ranking(hs, q, o2),
    ensures
        o1 == o2,
{
    law_sorted_order_unique(rank_keys(hs, q), o1, o2);
}

/// Deduplication keeps one result per key (lower-case path for entries,
/// lower-case name for shortcuts), and loses no key.
pub proof fn law_one_result_per_key(hs: Seq<Hit>)
    ensures
        forall|i: int, j: int|
            0 <= i < j < first_per_key(hs).len() ==> (#[trigger] first_per_key(hs)[i]).key
                != (#[trigger] first_per_key(hs)[j]).key,
        forall|k: Seq<char>| has_key(hs, k) == has_key(first_per_key(hs), k),
    decreases hs.len(),
{
    assert forall|k: Seq<char>| has_key(hs, k) == has_key(first_per_key(hs), k) by {
        lemma_first_per_key_keys(hs, k);
    }
    if hs.len() > 0 {
        let d = hs.drop_last();
        law_one_result_per_key(d);
        let f = first_per_key(hs);
        let fd = first_per_key(d);
        if !has_key(d, hs.last().key) {
            lemma_first_per_key_keys(d, hs.last().key);
            assert forall|i: int, j: int| 0 <= i < j < f.len() implies (#[trigger] f[i]).key
                != (#[trigger] f[j]).key by {
                if j == fd.len() {
                    assert(f[i] == fd[i]);
                    assert(f[j] == hs.last());
                } else {
                    assert(f[i] == fd[i] && f[j] == fd[j]);
                }
            }
        }
    }
}

proof fn lemma_count_label_at_least(hs: Seq<Hit>, l: Seq<char>, i: int, j: int)
    requires
        0 <= i < hs.len(),
        0 <= j < hs.len(),
        unicode_lowercase(hs[i].name) == l,
        unicode_lowercase(hs[j].name) == l,
    ensures
        count_label(hs, l) >= 1,
        i != j ==> count_label(hs, l) >= 2,
    decreases hs.len(),
{
    let n = hs.len() - 1;
    let d = hs.drop_last();
    if i < n {
        assert(d[i] == hs[i]);
    }
    if j < n {
        assert(d[j] == hs[j]);
    }
    if i < n && j < n {
        lemma_count_label_at_least(d, l, i, j);
    } else if i < n {
        lemma_count_label_at_least(d, l, i, i);
    } else if j < n {
        lemma_count_label_at_least(d, l, j, j);
    }
}

proof fn lemma_count_label_only(hs: Seq<Hit>, l: Seq<char>, i: int)
    requires
        0 <= i < hs.len(),
        forall|j: int| 0 <= j < hs.len() && j != i ==> unicode_lowercase(#[trigger] hs[j].name) != l,
    ensures
        count_label(hs, l) <= 1,
    decreases hs.len(),
{
    let n = hs.len() - 1;
    let d = hs.drop_last();
    if i < n {
        assert forall|j: int| 0 <= j < d.len() && j != i implies unicode_lowercase(#[trigger] d[j].name) != l by {
            assert(d[j] == hs[j]);
        }
        lemma_count_label_only(d, l, i);
    } else {
        lemma_count_label_none(d, l, hs);
    }
}

proof fn lemma_count_label_none(d: Seq<Hit>, l: Seq<char>, hs: Seq<Hit>)
    requires
        d.len() < hs.len(),
        forall|j: int| 0 <= j < d.len() ==> d[j] == hs[j],
        forall|j: int| 0 <= j < d.len() ==> unicode_lowercase(#[trigger] hs[j].name) != l,
    ensures
        count_label(d, l) == 0,
    decreases d.len(),
{
    if d.len() > 0 {
        let e = d.drop_last();
        assert(d.last() == hs[d.len() - 1]);
        lemma_count_label_none(e, l, hs);
    }
}

/// Same-named results are told apart: when two results share a label
/// (compared lower-cased), each of them that is not a folder and has a
/// file name shows that file name; a result whose label no other result
/// has keeps it.
pub proof fn law_shared_labels_disambiguated(hs: Seq<Hit>, i: int)
    requires
        0 <= i < hs.len(),
    ensures
        relabel_all(hs).len() == hs.len(),
        (exists|j: int|
            0 <= j < hs.len() && j != i && unicode_lowercase(#[trigger] hs[j].name) == unicode_lowercase(
                hs[i].name,
            )) && !hs[i].is_folder && hs[i].file_name is Some ==> relabel_all(hs)[i].name
            == hs[i].file_name->0,
        (forall|j: int|
            0 <= j < hs.len() && j != i ==> unicode_lowercase(#[trigger] hs[j].name) != unicode_lowercase(
                hs[i].name,
            )) ==> relabel_all(hs)[i] == hs[i],
        relabel_all(hs)[i].id == hs[i].id && relabel_all(hs)[i].path == hs[i].path
            && relabel_all(hs)[i].is_folder == hs[i].is_folder,
{
    let l = unicode_lowercase(hs[i].name);
    if exists|j: int| 0 <= j < hs.len() && j != i && unicode_lowercase(#[trigger] hs[j].name) == l {
        let j = choose|j: int| 0 <= j < hs.len() && j != i && unicode_lowercase(#[trigger] hs[j].name) == l;
        lemma_count_label_at_least(hs, l, i, j);
    }
    if forall|j: int| 0 <= j < hs.len() && j != i ==> unicode_lowercase(#[trigger] hs[j].name) != l {
        lemma_count_label_only(hs, l, i);
    }
}

} // verus!
