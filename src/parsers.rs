//! Parsers for the text that the virtualization tool prints, one per output
//! shape. Each is total: text it does not recognise is skipped, never an error.
use vstd::prelude::*;
use crate::text::{
    blocks, contains, contains_str, find_char, find_from, find_seq_from, find_space,
    find_space_from, find_str, lemma_find_from, lemma_find_seq_from, lemma_rfind_before, lines,
    parse_i64, parse_int, rfind_before, rfind_char, split_blocks, split_lines, starts_with,
    starts_with_str, text_eq, trim, trim_by, trim_end_by, trim_end_str, trim_str, trim_str_by,
    views,
};

verus! {

/// A virtual machine as the terse listing names it: `"<name>" {<uuid>}`.
#[derive(Clone, Debug)]
pub struct ListedWorker {
    pub name: String,
    pub id: String,
}

impl View for ListedWorker {
    type V = (Seq<char>, Seq<char>);

    open spec fn view(&self) -> (Seq<char>, Seq<char>) {
        (self.name@, self.id@)
    }
}

/// The name and uuid on one line of the terse listing: the name between the
/// first and the last double quote, the uuid between the first `{` and the
/// last `}`; nothing when either pair is missing.
pub open spec fn listed_worker(l: Seq<char>) -> Option<(Seq<char>, Seq<char>)> {
    let fq = find_from(l, '"', 0);
    let lq = rfind_before(l, '"', l.len() as int);
    let ob = find_from(l, '{', 0);
    let cb = rfind_before(l, '}', l.len() as int);
    if fq < lq && ob < cb {
        Some((l.subrange(fq + 1, lq), l.subrange(ob + 1, cb)))
    } else {
        None
    }
}

/// The workers that a sequence of listing lines names, in order.
pub open spec fn listed_workers(ls: Seq<Seq<char>>) -> Seq<(Seq<char>, Seq<char>)>
    decreases ls.len(),
{
    if ls.len() == 0 {
        seq![]
    } else {
        match listed_worker(ls.last()) {
            Some(w) => listed_workers(ls.drop_last()).push(w),
            None => listed_workers(ls.drop_last()),
        }
    }
}

pub open spec fn worker_views(v: Seq<ListedWorker>) -> Seq<(Seq<char>, Seq<char>)> {
    v.map_values(|w: ListedWorker| w@)
}

/// Reads one line of the terse listing.
pub fn parse_worker_line(line: &str) -> (r: Option<ListedWorker>)
    ensures
        match r {
            Some(w) => listed_worker(line@) == Some(w@),
            None => listed_worker(line@) is None,
        },
{
    let n = line.unicode_len();
    let fq = find_char(line, '"', 0);
    let ob = find_char(line, '{', 0);
    proof {
        lemma_find_from(line@, '"', 0);
        lemma_find_from(line@, '{', 0);
        lemma_rfind_before(line@, '"', n as int);
        lemma_rfind_before(line@, '}', n as int);
    }
    let lq = match rfind_char(line, '"') {
        Some(k) => k,
        None => return None,
    };
    let cb = match rfind_char(line, '}') {
        Some(k) => k,
        None => return None,
    };
    if fq < lq && ob < cb {
        let name = String::from_str(line.substring_char(fq + 1, lq));
        let id = String::from_str(line.substring_char(ob + 1, cb));
        Some(ListedWorker { name, id })
    } else {
        None
    }
}

/// Reads the terse listing of virtual machines (`list vms`): one worker per
/// line that holds both a quoted name and a braced uuid, in order.
pub fn parse_worker_listing(text: &str) -> (r: Vec<ListedWorker>)
    ensures
        worker_views(r@) == listed_workers(lines(text@)),
{
    let ls = split_lines(text);
    let ghost lv = lines(text@);
    let mut out: Vec<ListedWorker> = Vec::new();
    let mut i: usize = 0;
    while i < ls.len()
        invariant
            i <= ls.len(),
            views(ls@) == lv,
            worker_views(out@) == listed_workers(lv.take(i as int)),
        decreases ls.len() - i,
    {
        assert(lv.take(i as int + 1).drop_last() =~= lv.take(i as int));
        assert(lv.take(i as int + 1).last() == ls@[i as int]@);
        let ghost before = out@;
        match parse_worker_line(ls[i].as_str()) {
            Some(w) => {
                out.push(w);
                assert(worker_views(out@) =~= worker_views(before).push(w@));
            },
            None => {},
        }
        i = i + 1;
    }
    assert(lv.take(ls.len() as int) =~= lv);
    out
}

/// The fields of a machine-readable VM description that are recognised.
#[derive(Clone, Debug)]
pub struct WorkerInfo {
    pub name: Option<String>,
    pub id: Option<String>,
    pub state: Option<String>,
    pub memory_mb: Option<i64>,
    pub cpu_count: Option<i64>,
    pub os_type: Option<String>,
    pub firmware: Option<String>,
    pub graphics_controller: Option<String>,
}

pub struct WorkerInfoView {
    pub name: Option<Seq<char>>,
    pub id: Option<Seq<char>>,
    pub state: Option<Seq<char>>,
    pub memory_mb: Option<int>,
    pub cpu_count: Option<int>,
    pub os_type: Option<Seq<char>>,
    pub firmware: Option<Seq<char>>,
    pub graphics_controller: Option<Seq<char>>,
}

pub open spec fn opt_view(o: Option<String>) -> Option<Seq<char>> {
    match o {
        Some(s) => Some(s@),
        None => None,
    }
}

pub open spec fn opt_int(o: Option<i64>) -> Option<int> {
    match o {
        Some(v) => Some(v as int),
        None => None,
    }
}

impl View for WorkerInfo {
    type V = WorkerInfoView;

    open spec fn view(&self) -> WorkerInfoView {
        WorkerInfoView {
            name: opt_view(self.name),
            id: opt_view(self.id),
            state: opt_view(self.state),
            memory_mb: opt_int(self.memory_mb),
            cpu_count: opt_int(self.cpu_count),
            os_type: opt_view(self.os_type),
            firmware: opt_view(self.firmware),
            graphics_controller: opt_view(self.graphics_controller),
        }
    }
}

pub open spec fn empty_info() -> WorkerInfoView {
    WorkerInfoView {
        name: None,
        id: None,
        state: None,
        memory_mb: None,
        cpu_count: None,
        os_type: None,
        firmware: None,
        graphics_controller: None,
    }
}

/// The key of a `key=value` line: the text before the first `=`, trimmed.
pub open spec fn line_key(l: Seq<char>) -> Seq<char> {
    trim(l.take(find_from(l, '=', 0)))
}

/// The value of a `key=value` line: the text after the first `=`, trimmed,
/// without surrounding double quotes.
pub open spec fn line_value(l: Seq<char>) -> Seq<char> {
    trim_by(trim(l.skip(find_from(l, '=', 0) + 1)), Some('"'))
}

/// The description after one more line of machine-readable output.
pub open spec fn info_step(v: WorkerInfoView, l: Seq<char>) -> WorkerInfoView {
    let k = line_key(l);
    let x = line_value(l);
    if find_from(l, '=', 0) >= l.len() {
        v
    } else if k == "name"@ {
        WorkerInfoView { name: Some(x), ..v }
    } else if k == "UUID"@ {
        WorkerInfoView { id: Some(x), ..v }
    } else if k == "VMState"@ {
        WorkerInfoView { state: Some(x), ..v }
    } else if k == "memory"@ {
        if parse_int(x) is Some {
            WorkerInfoView { memory_mb: parse_int(x), ..v }
        } else {
            v
        }
    } else if k == "cpus"@ {
        if parse_int(x) is Some {
            WorkerInfoView { cpu_count: parse_int(x), ..v }
        } else {
            v
        }
    } else if k == "ostype"@ {
        WorkerInfoView { os_type: Some(x), ..v }
    } else if k == "firmware"@ {
        WorkerInfoView { firmware: Some(x), ..v }
    } else if k == "graphicscontroller"@ {
        WorkerInfoView { graphics_controller: Some(x), ..v }
    } else {
        v
    }
}

/// The description that a sequence of machine-readable lines gives; a later
/// line for a key replaces an earlier one.
pub open spec fn worker_info(ls: Seq<Seq<char>>) -> WorkerInfoView
    decreases ls.len(),
{
    if ls.len() == 0 {
        empty_info()
    } else {
        info_step(worker_info(ls.drop_last()), ls.last())
    }
}

fn info_apply(info: &mut WorkerInfo, line: &str)
    ensures
        final(info)@ == info_step(old(info)@, line@),
{
    let n = line.unicode_len();
    let e = find_char(line, '=', 0);
    if e >= n {
        return;
    }
    let key = trim_str(line.substring_char(0, e));
    let value = trim_str_by(trim_str(line.substring_char(e + 1, n)), Some('"'));
    assert(line@.subrange(0, e as int) =~= line@.take(e as int));
    assert(line@.subrange(e + 1, n as int) =~= line@.skip(e + 1));
    if text_eq(key, "name") {
        info.name = Some(String::from_str(value));
    } else if text_eq(key, "UUID") {
        info.id = Some(String::from_str(value));
    } else if text_eq(key, "VMState") {
        info.state = Some(String::from_str(value));
    } else if text_eq(key, "memory") {
        match parse_i64(value) {
            Some(v) => info.memory_mb = Some(v),
            None => {},
        }
    } else if text_eq(key, "cpus") {
        match parse_i64(value) {
            Some(v) => info.cpu_count = Some(v),
            None => {},
        }
    } else if text_eq(key, "ostype") {
        info.os_type = Some(String::from_str(value));
    } else if text_eq(key, "firmware") {
        info.firmware = Some(String::from_str(value));
    } else if text_eq(key, "graphicscontroller") {
        info.graphics_controller = Some(String::from_str(value));
    }
}

/// Reads the machine-readable description of one virtual machine
/// (`showvminfo --machinereadable`). Unrecognised keys are dropped, and an
/// integer field whose value is not a number is left out.
pub fn parse_worker_info(text: &str) -> (r: WorkerInfo)
    ensures
        r@ == worker_info(lines(text@)),
{
    let ls = split_lines(text);
    let ghost lv = lines(text@);
    let mut info = WorkerInfo {
        name: None,
        id: None,
        state: None,
        memory_mb: None,
        cpu_count: None,
        os_type: None,
        firmware: None,
        graphics_controller: None,
    };
    let mut i: usize = 0;
    while i < ls.len()
        invariant
            i <= ls.len(),
            views(ls@) == lv,
            info@ == worker_info(lv.take(i as int)),
        decreases ls.len() - i,
    {
        assert(lv.take(i as int + 1).drop_last() =~= lv.take(i as int));
        assert(lv.take(i as int + 1).last() == ls@[i as int]@);
        info_apply(&mut info, ls[i].as_str());
        i = i + 1;
    }
    assert(lv.take(ls.len() as int) =~= lv);
    info
}

/// The version that `--version` prints: its output without trailing white
/// space.
pub open spec fn version_text(s: Seq<char>) -> Seq<char> {
    trim_end_by(s, None)
}

/// Reads the output of `--version`.
pub fn parse_version(text: &str) -> (r: String)
    ensures
        r@ == version_text(text@),
{
    String::from_str(trim_end_str(text))
}

/// The properties of a virtual disk that a block of `list hdds` gives.
#[derive(Clone, Debug)]
pub struct VolumeRecord {
    pub id: Option<String>,
    pub path: Option<String>,
    pub size_mb: Option<i64>,
    pub format: Option<String>,
    pub kind: Option<String>,
    pub parent: Option<String>,
    pub state: Option<String>,
}

pub struct VolumeView {
    pub id: Option<Seq<char>>,
    pub path: Option<Seq<char>>,
    pub size_mb: Option<int>,
    pub format: Option<Seq<char>>,
    pub kind: Option<Seq<char>>,
    pub parent: Option<Seq<char>>,
    pub state: Option<Seq<char>>,
}

impl View for VolumeRecord {
    type V = VolumeView;

    open spec fn view(&self) -> VolumeView {
        VolumeView {
            id: opt_view(self.id),
            path: opt_view(self.path),
            size_mb: opt_int(self.size_mb),
            format: opt_view(self.format),
            kind: opt_view(self.kind),
            parent: opt_view(self.parent),
            state: opt_view(self.state),
        }
    }
}

pub open spec fn empty_volume() -> VolumeView {
    VolumeView {
        id: None,
        path: None,
        size_mb: None,
        format: None,
        kind: None,
        parent: None,
        state: None,
    }
}

/// Whether any property of `v` is known.
pub open spec fn has_fields(v: VolumeView) -> bool {
    v.id is Some || v.path is Some || v.size_mb is Some || v.format is Some || v.kind is Some
        || v.parent is Some || v.state is Some
}

/// The value after a label: the rest of the line, trimmed.
pub open spec fn label_rest(l: Seq<char>, label: Seq<char>) -> Seq<char> {
    trim(l.skip(label.len() as int))
}

/// The size in megabytes that a capacity such as `10240 MBytes` gives: the
/// first word read as an integer, when the second word is `MBytes`.
pub open spec fn capacity_mb(rest: Seq<char>) -> Option<int> {
    let t = trim(rest);
    let e1 = find_space_from(t, 0);
    let r = trim(t.skip(e1));
    if r.take(find_space_from(r, 0)) == "MBytes"@ {
        parse_int(t.take(e1))
    } else {
        None
    }
}

/// The properties after one more line of a block; each label replaces an
/// earlier value.
pub open spec fn volume_step(v: VolumeView, l: Seq<char>) -> VolumeView {
    if starts_with(l, "UUID:"@) {
        VolumeView { id: Some(label_rest(l, "UUID:"@)), ..v }
    } else if starts_with(l, "Location:"@) {
        VolumeView { path: Some(label_rest(l, "Location:"@)), ..v }
    } else if starts_with(l, "Capacity:"@) {
        match capacity_mb(l.skip("Capacity:"@.len() as int)) {
            Some(n) => VolumeView { size_mb: Some(n), ..v },
            None => v,
        }
    } else if starts_with(l, "Format:"@) {
        VolumeView { format: Some(label_rest(l, "Format:"@)), ..v }
    } else if starts_with(l, "Type:"@) {
        VolumeView { kind: Some(label_rest(l, "Type:"@)), ..v }
    } else if starts_with(l, "Parent UUID:"@) {
        VolumeView { parent: Some(label_rest(l, "Parent UUID:"@)), ..v }
    } else if starts_with(l, "State:"@) {
        VolumeView { state: Some(label_rest(l, "State:"@)), ..v }
    } else {
        v
    }
}

/// The properties that a sequence of block lines gives.
pub open spec fn volume_fields(ls: Seq<Seq<char>>) -> VolumeView
    decreases ls.len(),
{
    if ls.len() == 0 {
        empty_volume()
    } else {
        volume_step(volume_fields(ls.drop_last()), ls.last())
    }
}

/// The volumes that a sequence of blocks describes: one per block with at
/// least one recognised property, in order.
pub open spec fn volumes(bs: Seq<Seq<char>>) -> Seq<VolumeView>
    decreases bs.len(),
{
    if bs.len() == 0 {
        seq![]
    } else if has_fields(volume_fields(lines(bs.last()))) {
        volumes(bs.drop_last()).push(volume_fields(lines(bs.last())))
    } else {
        volumes(bs.drop_last())
    }
}

pub open spec fn volume_views(v: Seq<VolumeRecord>) -> Seq<VolumeView> {
    v.map_values(|r: VolumeRecord| r@)
}

fn label_value(line: &str, label: &str) -> (r: String)
    requires
        starts_with(line@, label@),
    ensures
        r@ == label_rest(line@, label@),
{
    let n = line.unicode_len();
    let k = label.unicode_len();
    assert(line@.subrange(k as int, n as int) =~= line@.skip(k as int));
    String::from_str(trim_str(line.substring_char(k, n)))
}

/// Reads a capacity such as `10240 MBytes` as a number of megabytes.
pub fn parse_capacity(rest: &str) -> (r: Option<i64>)
    ensures
        opt_int(r) == capacity_mb(rest@),
{
    let t = trim_str(rest);
    let n = t.unicode_len();
    let e1 = find_space(t);
    assert(t@.subrange(e1 as int, n as int) =~= t@.skip(e1 as int));
    let r = trim_str(t.substring_char(e1, n));
    let e2 = find_space(r);
    assert(r@.subrange(0, e2 as int) =~= r@.take(e2 as int));
    assert(t@.subrange(0, e1 as int) =~= t@.take(e1 as int));
    if text_eq(r.substring_char(0, e2), "MBytes") {
        parse_i64(t.substring_char(0, e1))
    } else {
        None
    }
}

fn volume_apply(v: &mut VolumeRecord, line: &str)
    ensures
        final(v)@ == volume_step(old(v)@, line@),
{
    if starts_with_str(line, "UUID:") {
        v.id = Some(label_value(line, "UUID:"));
    } else if starts_with_str(line, "Location:") {
        v.path = Some(label_value(line, "Location:"));
    } else if starts_with_str(line, "Capacity:") {
        let n = line.unicode_len();
        let k = "Capacity:".unicode_len();
        assert(line@.subrange(k as int, n as int) =~= line@.skip(k as int));
        match parse_capacity(line.substring_char(k, n)) {
            Some(size) => v.size_mb = Some(size),
            None => {},
        }
    } else if starts_with_str(line, "Format:") {
        v.format = Some(label_value(line, "Format:"));
    } else if starts_with_str(line, "Type:") {
        v.kind = Some(label_value(line, "Type:"));
    } else if starts_with_str(line, "Parent UUID:") {
        v.parent = Some(label_value(line, "Parent UUID:"));
    } else if starts_with_str(line, "State:") {
        v.state = Some(label_value(line, "State:"));
    }
}

/// Reads one block of `list hdds`.
pub fn parse_volume_block(block: &str) -> (r: VolumeRecord)
    ensures
        r@ == volume_fields(lines(block@)),
{
    let ls = split_lines(block);
    let ghost lv = lines(block@);
    let mut v = VolumeRecord {
        id: None,
        path: None,
        size_mb: None,
        format: None,
        kind: None,
        parent: None,
        state: None,
    };
    let mut i: usize = 0;
    while i < ls.len()
        invariant
            i <= ls.len(),
            views(ls@) == lv,
            v@ == volume_fields(lv.take(i as int)),
        decreases ls.len() - i,
    {
        assert(lv.take(i as int + 1).drop_last() =~= lv.take(i as int));
        assert(lv.take(i as int + 1).last() == ls@[i as int]@);
        volume_apply(&mut v, ls[i].as_str());
        i = i + 1;
    }
    assert(lv.take(ls.len() as int) =~= lv);
    v
}

fn volume_has_fields(v: &VolumeRecord) -> (r: bool)
    ensures
        r == has_fields(v@),
{
    v.id.is_some() || v.path.is_some() || v.size_mb.is_some() || v.format.is_some()
        || v.kind.is_some() || v.parent.is_some() || v.state.is_some()
}

/// Reads the listing of virtual disks (`list hdds`): blocks separated by an
/// empty line, each a sequence of `Label: value` lines. A block in which no
/// label is recognised gives no record.
pub fn parse_volumes(text: &str) -> (r: Vec<VolumeRecord>)
    ensures
        volume_views(r@) == volumes(blocks(text@)),
{
    let bs = split_blocks(text);
    let ghost bv = blocks(text@);
    let mut out: Vec<VolumeRecord> = Vec::new();
    let mut i: usize = 0;
    while i < bs.len()
        invariant
            i <= bs.len(),
            views(bs@) == bv,
            volume_views(out@) == volumes(bv.take(i as int)),
        decreases bs.len() - i,
    {
        assert(bv.take(i as int + 1).drop_last() =~= bv.take(i as int));
        assert(bv.take(i as int + 1).last() == bs@[i as int]@);
        let ghost before = out@;
        let v = parse_volume_block(bs[i].as_str());
        if volume_has_fields(&v) {
            out.push(v);
            assert(volume_views(out@) =~= volume_views(before).push(v@));
        }
        i = i + 1;
    }
    assert(bv.take(bs.len() as int) =~= bv);
    out
}

/// Whether the line holds a colon.
pub open spec fn has_colon(l: Seq<char>) -> bool {
    find_from(l, ':', 0) < l.len()
}

/// The text after the first colon of a line, trimmed.
pub open spec fn after_colon(l: Seq<char>) -> Seq<char> {
    trim(l.skip(find_from(l, ':', 0) + 1))
}

/// The value of the first line that mentions `label` and holds a colon.
pub open spec fn first_labeled(ls: Seq<Seq<char>>, label: Seq<char>) -> Option<Seq<char>>
    decreases ls.len(),
{
    if ls.len() == 0 {
        None
    } else if contains(ls[0], label) && has_colon(ls[0]) {
        Some(after_colon(ls[0]))
    } else {
        first_labeled(ls.skip(1), label)
    }
}

fn colon_value(line: &str) -> (r: String)
    requires
        has_colon(line@),
    ensures
        r@ == after_colon(line@),
{
    let n = line.unicode_len();
    let e = find_char(line, ':', 0);
    assert(line@.subrange(e + 1, n as int) =~= line@.skip(e + 1));
    String::from_str(trim_str(line.substring_char(e + 1, n)))
}

fn line_has_colon(line: &str) -> (r: bool)
    ensures
        r == has_colon(line@),
{
    find_char(line, ':', 0) < line.unicode_len()
}

/// Reads the value of the first `<label>...: <value>` line of `text`, as the
/// tool reports an identifier or a path after creating something.
pub fn labeled_value(text: &str, label: &str) -> (r: Option<String>)
    ensures
        opt_view(r) == first_labeled(lines(text@), label@),
{
    let ls = split_lines(text);
    let ghost lv = lines(text@);
    let mut i: usize = 0;
    assert(lv.skip(0) =~= lv);
    while i < ls.len()
        invariant
            i <= ls.len(),
            views(ls@) == lv,
            lv == lines(text@),
            first_labeled(lv, label@) == first_labeled(lv.skip(i as int), label@),
        decreases ls.len() - i,
    {
        assert(lv.skip(i as int)[0] == ls@[i as int]@);
        assert(lv.skip(i as int).skip(1) =~= lv.skip(i as int + 1));
        let line = ls[i].as_str();
        if contains_str(line, label) && line_has_colon(line) {
            assert(lv.skip(i as int).len() > 0);
            return Some(colon_value(line));
        }
        i = i + 1;
    }
    None
}

/// The identifier and the location that `createmedium` reports: the values
/// of the last lines that mention `UUID:` and `Location:`.
pub open spec fn created_medium(ls: Seq<Seq<char>>) -> (Seq<char>, Seq<char>)
    decreases ls.len(),
{
    if ls.len() == 0 {
        (seq![], seq![])
    } else {
        let (u, p) = created_medium(ls.drop_last());
        if contains(ls.last(), "UUID:"@) && has_colon(ls.last()) {
            (after_colon(ls.last()), p)
        } else if contains(ls.last(), "Location:"@) && has_colon(ls.last()) {
            (u, after_colon(ls.last()))
        } else {
            (u, p)
        }
    }
}

/// Reads the output of `createmedium`: the uuid and the path of the new disk,
/// each empty when not reported.
pub fn parse_created_medium(text: &str) -> (r: (String, String))
    ensures
        (r.0@, r.1@) == created_medium(lines(text@)),
{
    let ls = split_lines(text);
    let ghost lv = lines(text@);
    let mut uuid = String::new();
    let mut path = String::new();
    let mut i: usize = 0;
    while i < ls.len()
        invariant
            i <= ls.len(),
            views(ls@) == lv,
            (uuid@, path@) == created_medium(lv.take(i as int)),
        decreases ls.len() - i,
    {
        assert(lv.take(i as int + 1).drop_last() =~= lv.take(i as int));
        assert(lv.take(i as int + 1).last() == ls@[i as int]@);
        let line = ls[i].as_str();
        if contains_str(line, "UUID:") && line_has_colon(line) {
            uuid = colon_value(line);
        } else if contains_str(line, "Location:") && line_has_colon(line) {
            path = colon_value(line);
        }
        i = i + 1;
    }
    assert(lv.take(ls.len() as int) =~= lv);
    (uuid, path)
}

/// The identifier on a `... taken as <id>` line: the text after the first
/// `taken as`, up to a second one if any, trimmed.
pub open spec fn taken_id(l: Seq<char>) -> Seq<char> {
    let p = "taken as"@;
    let k = find_seq_from(l, p, 0);
    let k2 = find_seq_from(l, p, k + p.len());
    trim(
        if k2 < 0 {
            l.subrange(k + p.len(), l.len() as int)
        } else {
            l.subrange(k + p.len(), k2)
        },
    )
}

/// The identifier of the first line that mentions `taken as`.
pub open spec fn snapshot_id(ls: Seq<Seq<char>>) -> Option<Seq<char>>
    decreases ls.len(),
{
    if ls.len() == 0 {
        None
    } else if contains(ls[0], "taken as"@) {
        Some(taken_id(ls[0]))
    } else {
        snapshot_id(ls.skip(1))
    }
}

/// Reads the confirmation that `snapshot take` prints.
pub fn parse_snapshot_taken(text: &str) -> (r: Option<String>)
    ensures
        opt_view(r) == snapshot_id(lines(text@)),
{
    let pat = "taken as";
    let m = pat.unicode_len();
    let ls = split_lines(text);
    let ghost lv = lines(text@);
    let mut i: usize = 0;
    assert(lv.skip(0) =~= lv);
    while i < ls.len()
        invariant
            i <= ls.len(),
            views(ls@) == lv,
            lv == lines(text@),
            m == pat@.len(),
            pat@ == "taken as"@,
            snapshot_id(lv) == snapshot_id(lv.skip(i as int)),
        decreases ls.len() - i,
    {
        assert(lv.skip(i as int)[0] == ls@[i as int]@);
        assert(lv.skip(i as int).skip(1) =~= lv.skip(i as int + 1));
        let line = ls[i].as_str();
        match find_str(line, pat, 0) {
            Some(k) => {
                proof {
                    lemma_find_seq_from(line@, pat@, 0);
                }
                let n = line.unicode_len();
                let piece = match find_str(line, pat, k + m) {
                    Some(k2) => {
                        proof {
                            lemma_find_seq_from(line@, pat@, k + m);
                        }
                        line.substring_char(k + m, k2)
                    },
                    None => line.substring_char(k + m, n),
                };
                assert(lv.skip(i as int).len() > 0);
                assert(contains(lv.skip(i as int)[0], "taken as"@));
                return Some(String::from_str(trim_str(piece)));
            },
            None => {},
        }
        i = i + 1;
    }
    None
}

/// Whether some line of `ls` holds `name`.
pub open spec fn mentions(ls: Seq<Seq<char>>, name: Seq<char>) -> bool {
    exists|i: int| 0 <= i < ls.len() && contains(#[trigger] ls[i], name)
}

/// Whether some line of `text` holds `name` as a substring.
pub fn listing_mentions(text: &str, name: &str) -> (r: bool)
    ensures
        r == mentions(lines(text@), name@),
{
    let ls = split_lines(text);
    let ghost lv = lines(text@);
    let mut i: usize = 0;
    while i < ls.len()
        invariant
            i <= ls.len(),
            views(ls@) == lv,
            lv == lines(text@),
            forall|j: int| 0 <= j < i ==> !contains(#[trigger] lv[j], name@),
        decreases ls.len() - i,
    {
        assert(lv[i as int] == ls@[i as int]@);
        if contains_str(ls[i].as_str(), name) {
            assert(contains(lv[i as int], name@));
            return true;
        }
        i = i + 1;
    }
    false
}

} // verus!
