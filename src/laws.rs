//! Properties that hold of the parsers and the dispatcher over all inputs.
use vstd::prelude::*;
use crate::actions::{
    action_named, command_lines, output_spec, not_found_message, step_spec, Action,
    ActionOutput, ActionRequest, CommandOutcome, Step,
};
use crate::parsers::{
    after_colon, created_medium, has_colon, capacity_mb, empty_volume, has_fields, info_step, line_key, line_value, listed_worker,
    listed_workers, volume_fields, volume_step, volumes, worker_info,
    VolumeView, WorkerInfoView,
};
use crate::text::{
    block_sep, blocks, lemma_find_seq_from, contains, find_from, is_space, find_seq_from, lemma_find_from, lemma_rfind_before, lines, parse_int,
    rfind_before, starts_with,
};

verus! {

proof fn lemma_find_from_exact(s: Seq<char>, c: char, i: int, j: int)
    requires
        0 <= i <= j < s.len(),
        s[j] == c,
        forall|k: int| i <= k < j ==> s[k] != c,
    ensures
        find_from(s, c, i) == j,
    decreases j - i,
{
    if i < j {
        lemma_find_from_exact(s, c, i + 1, j);
    }
}

proof fn lemma_rfind_exact(s: Seq<char>, c: char, j: int, n: int)
    requires
        0 <= j < n <= s.len(),
        s[j] == c,
        forall|k: int| j < k < n ==> s[k] != c,
    ensures
        rfind_before(s, c, n) == j,
    decreases n - j,
{
    if j < n - 1 {
        lemma_rfind_exact(s, c, j, n - 1);
    }
}

/// The line that the terse listing prints for a machine.
pub open spec fn listing_line(name: Seq<char>, uuid: Seq<char>) -> Seq<char> {
    seq!['"'] + name + seq!['"', ' ', '{'] + uuid + seq!['}']
}

/// Whether a listing line of `name` and `uuid` reads back unambiguously: the
/// name holds no `{` and the uuid no double quote.
pub open spec fn listable(name: Seq<char>, uuid: Seq<char>) -> bool {
    (forall|k: int| 0 <= k < name.len() ==> name[k] != '{') && (forall|k: int|
        0 <= k < uuid.len() ==> uuid[k] != '"')
}

proof fn lemma_listing_line(name: Seq<char>, uuid: Seq<char>)
    requires
        listable(name, uuid),
    ensures
        listed_worker(listing_line(name, uuid)) == Some((name, uuid)),
{
    let l = listing_line(name, uuid);
    let n = name.len() as int;
    let len = l.len() as int;
    assert(len == n + uuid.len() + 5);
    assert(l[0] == '"');
    assert(l[n + 1] == '"');
    assert(l[n + 2] == ' ');
    assert(l[n + 3] == '{');
    assert(l[len - 1] == '}');
    assert forall|k: int| 1 <= k < n + 1 implies l[k] == name[k - 1] by {}
    assert forall|k: int| n + 4 <= k < len - 1 implies l[k] == uuid[k - n - 4] by {}
    assert(find_from(l, '"', 0) == 0);
    lemma_rfind_exact(l, '"', n + 1, len);
    lemma_find_from_exact(l, '{', 0, n + 3);
    assert(rfind_before(l, '}', len) == len - 1);
    assert(l.subrange(1, n + 1) =~= name);
    assert(l.subrange(n + 4, len - 1) =~= uuid);
}

proof fn lemma_listed_workers_of_lines(
    ls: Seq<Seq<char>>,
    entries: Seq<(Seq<char>, Seq<char>)>,
)
    requires
        ls.len() == entries.len(),
        forall|i: int| 0 <= i < ls.len() ==> listable(#[trigger] entries[i].0, entries[i].1),
        forall|i: int| 0 <= i < ls.len() ==> #[trigger] ls[i] == listing_line(entries[i].0, entries[i].1),
    ensures
        listed_workers(ls) == entries,
    decreases ls.len(),
{
    if ls.len() > 0 {
        let k = ls.len() - 1;
        let (l2, e2) = (ls.drop_last(), entries.drop_last());
        assert forall|i: int| 0 <= i < l2.len() implies listable(#[trigger] e2[i].0, e2[i].1) by {
            assert(e2[i] == entries[i]);
        }
        assert forall|i: int| 0 <= i < l2.len() implies #[trigger] l2[i] == listing_line(
            e2[i].0,
            e2[i].1,
        ) by {
            assert(l2[i] == ls[i] && e2[i] == entries[i]);
        }
        lemma_listed_workers_of_lines(l2, e2);
        assert(ls[k] == listing_line(entries[k].0, entries[k].1));
        lemma_listing_line(entries[k].0, entries[k].1);
        assert(entries.drop_last().push(entries[k]) =~= entries);
    } else {
        assert(entries =~= Seq::<(Seq<char>, Seq<char>)>::empty());
    }
}

/// A terse listing whose lines are all `"<name>" {<uuid>}` gives exactly one
/// worker per line, with that name and uuid, in the order of the lines.
pub proof fn law_listing_reads_every_line(
    text: Seq<char>,
    entries: Seq<(Seq<char>, Seq<char>)>,
)
    requires
        lines(text).len() == entries.len(),
        forall|i: int| 0 <= i < entries.len() ==> listable(#[trigger] entries[i].0, entries[i].1),
        forall|i: int|
            0 <= i < entries.len() ==> #[trigger] lines(text)[i] == listing_line(
                entries[i].0,
                entries[i].1,
            ),
    ensures
        listed_workers(lines(text)) == entries,
{
    lemma_listed_workers_of_lines(lines(text), entries);
}

/// Whether a line holds nothing but white space.
pub open spec fn is_blank(l: Seq<char>) -> bool {
    forall|k: int| 0 <= k < l.len() ==> is_space(#[trigger] l[k])
}

/// The lines of `ls` that are not blank, in order.
pub open spec fn nonblank(ls: Seq<Seq<char>>) -> Seq<Seq<char>>
    decreases ls.len(),
{
    if ls.len() == 0 {
        seq![]
    } else if is_blank(ls.last()) {
        nonblank(ls.drop_last())
    } else {
        nonblank(ls.drop_last()).push(ls.last())
    }
}

proof fn lemma_blank_not_listed(l: Seq<char>)
    requires
        is_blank(l),
    ensures
        listed_worker(l) is None,
{
    lemma_find_from(l, '"', 0);
    lemma_rfind_before(l, '"', l.len() as int);
    let fq = find_from(l, '"', 0);
    if fq < l.len() {
        assert(is_space(l[fq]));
        assert(!is_space('"'));
    }
}

proof fn lemma_listed_nonblank(ls: Seq<Seq<char>>)
    ensures
        listed_workers(ls) == listed_workers(nonblank(ls)),
    decreases ls.len(),
{
    if ls.len() > 0 {
        lemma_listed_nonblank(ls.drop_last());
        let n = nonblank(ls.drop_last());
        if is_blank(ls.last()) {
            lemma_blank_not_listed(ls.last());
        } else {
            assert(n.push(ls.last()).drop_last() =~= n);
            assert(n.push(ls.last()).last() == ls.last());
        }
    }
}

/// Blank lines among the lines of a terse listing change nothing: whose
/// lines are `"<name>" {<uuid>}` apart from blank ones gives exactly one
/// worker per such line, with that name and uuid, in order.
pub proof fn law_listing_skips_blank_lines(
    text: Seq<char>,
    entries: Seq<(Seq<char>, Seq<char>)>,
)
    requires
        nonblank(lines(text)).len() == entries.len(),
        forall|i: int| 0 <= i < entries.len() ==> listable(#[trigger] entries[i].0, entries[i].1),
        forall|i: int|
            0 <= i < entries.len() ==> #[trigger] nonblank(lines(text))[i] == listing_line(
                entries[i].0,
                entries[i].1,
            ),
    ensures
        listed_workers(lines(text)) == entries,
{
    lemma_listed_nonblank(lines(text));
    lemma_listed_workers_of_lines(nonblank(lines(text)), entries);
}

/// Whether no `open` character of `l` stands before a `close` character.
pub open spec fn lacks_pair(l: Seq<char>, open: char, close: char) -> bool {
    !(exists|i: int, j: int| 0 <= i < j < l.len() && l[i] == open && l[j] == close)
}

proof fn lemma_skip_listed(before: Seq<Seq<char>>, l: Seq<char>, after: Seq<Seq<char>>)
    requires
        listed_worker(l) is None,
    ensures
        listed_workers(before + seq![l] + after) == listed_workers(before + after),
    decreases after.len(),
{
    if after.len() == 0 {
        assert((before + seq![l] + after).drop_last() =~= before);
        assert(before + after =~= before);
    } else {
        let a = after.drop_last();
        lemma_skip_listed(before, l, a);
        assert((before + seq![l] + after).drop_last() =~= before + seq![l] + a);
        assert((before + after).drop_last() =~= before + a);
    }
}

/// A listing line without a pair of double quotes, or without a `{` before a
/// `}`, gives no worker, and the lines around it are read as if it were not
/// there.
pub proof fn law_unpaired_line_skipped(
    before: Seq<Seq<char>>,
    l: Seq<char>,
    after: Seq<Seq<char>>,
)
    requires
        lacks_pair(l, '"', '"') || lacks_pair(l, '{', '}'),
    ensures
        listed_worker(l) is None,
        listed_workers(before + seq![l] + after) == listed_workers(before + after),
{
    let len = l.len() as int;
    lemma_find_from(l, '"', 0);
    lemma_find_from(l, '{', 0);
    lemma_rfind_before(l, '"', len);
    lemma_rfind_before(l, '}', len);
    let fq = find_from(l, '"', 0);
    let lq = rfind_before(l, '"', len);
    let ob = find_from(l, '{', 0);
    let cb = rfind_before(l, '}', len);
    if fq < lq && ob < cb {
        assert(l[fq] == '"' && l[lq] == '"');
        assert(l[ob] == '{' && l[cb] == '}');
        assert(!lacks_pair(l, '"', '"'));
        assert(!lacks_pair(l, '{', '}'));
    }
    lemma_skip_listed(before, l, after);
}

proof fn lemma_skip_info(before: Seq<Seq<char>>, l: Seq<char>, after: Seq<Seq<char>>)
    requires
        forall|v: WorkerInfoView| #[trigger] info_step(v, l) == v,
    ensures
        worker_info(before + seq![l] + after) == worker_info(before + after),
    decreases after.len(),
{
    if after.len() == 0 {
        assert((before + seq![l] + after).drop_last() =~= before);
        assert(before + after =~= before);
        assert(info_step(worker_info(before), l) == worker_info(before));
    } else {
        let a = after.drop_last();
        lemma_skip_info(before, l, a);
        assert((before + seq![l] + after).drop_last() =~= before + seq![l] + a);
        assert((before + after).drop_last() =~= before + a);
    }
}

/// A `memory` or `cpus` line whose value is not an integer sets nothing: the
/// description is that of the other lines, every other field included.
pub proof fn law_non_numeric_field_omitted(
    before: Seq<Seq<char>>,
    l: Seq<char>,
    after: Seq<Seq<char>>,
)
    requires
        line_key(l) == "memory"@ || line_key(l) == "cpus"@,
        parse_int(line_value(l)) is None,
    ensures
        worker_info(before + seq![l] + after) == worker_info(before + after),
{
    reveal_strlit("memory");
    reveal_strlit("cpus");
    reveal_strlit("name");
    reveal_strlit("UUID");
    reveal_strlit("VMState");
    assert("memory"@ != "name"@ && "memory"@ != "UUID"@ && "memory"@ != "VMState"@) by {
        assert("memory"@.len() != "name"@.len());
        assert("memory"@.len() != "UUID"@.len());
        assert("memory"@.len() != "VMState"@.len());
    }
    assert("cpus"@ != "name"@ && "cpus"@ != "UUID"@ && "cpus"@ != "VMState"@
        && "cpus"@ != "memory"@) by {
        assert("cpus"@[0] != "name"@[0]);
        assert("cpus"@[0] != "UUID"@[0]);
        assert("cpus"@.len() != "VMState"@.len());
        assert("cpus"@.len() != "memory"@.len());
    }
    assert forall|v: WorkerInfoView| #[trigger] info_step(v, l) == v by {}
    lemma_skip_info(before, l, after);
}

/// Whether a line of a volume block carries a label that sets a property:
/// one of the recognised labels, and for a capacity one in megabytes.
pub open spec fn recognized(l: Seq<char>) -> bool {
    if starts_with(l, "UUID:"@) || starts_with(l, "Location:"@) {
        true
    } else if starts_with(l, "Capacity:"@) {
        capacity_mb(l.skip("Capacity:"@.len() as int)) is Some
    } else {
        starts_with(l, "Format:"@) || starts_with(l, "Type:"@) || starts_with(l, "Parent UUID:"@)
            || starts_with(l, "State:"@)
    }
}

/// The number of known properties of a volume.
pub open spec fn field_count(v: VolumeView) -> nat {
    (if v.id is Some { 1nat } else { 0 }) + (if v.path is Some { 1nat } else { 0 }) + (
    if v.size_mb is Some { 1nat } else { 0 }) + (if v.format is Some { 1nat } else { 0 }) + (
    if v.kind is Some { 1nat } else { 0 }) + (if v.parent is Some { 1nat } else { 0 }) + (
    if v.state is Some { 1nat } else { 0 })
}

proof fn lemma_unrecognized_step(v: VolumeView, l: Seq<char>)
    requires
        !recognized(l),
    ensures
        volume_step(v, l) == v,
{
}

proof fn lemma_recognized_step(l: Seq<char>)
    requires
        recognized(l),
    ensures
        field_count(volume_step(empty_volume(), l)) == 1,
        has_fields(volume_step(empty_volume(), l)),
{
}

proof fn lemma_fields_unrecognized(pre: Seq<Seq<char>>, post: Seq<Seq<char>>)
    requires
        forall|i: int| 0 <= i < post.len() ==> !recognized(#[trigger] post[i]),
    ensures
        volume_fields(pre + post) == volume_fields(pre),
    decreases post.len(),
{
    if post.len() == 0 {
        assert(pre + post =~= pre);
    } else {
        let p = post.drop_last();
        assert forall|i: int| 0 <= i < p.len() implies !recognized(#[trigger] p[i]) by {
            assert(p[i] == post[i]);
        }
        lemma_fields_unrecognized(pre, p);
        assert((pre + post).drop_last() =~= pre + p);
        assert((pre + post).last() == post[post.len() - 1]);
        lemma_unrecognized_step(volume_fields(pre), post[post.len() - 1]);
    }
}

/// A block in which no line carries a recognised label gives no volume.
pub proof fn law_unlabeled_block(b: Seq<char>)
    requires
        forall|i: int| 0 <= i < lines(b).len() ==> !recognized(#[trigger] lines(b)[i]),
    ensures
        volumes(seq![b]) == Seq::<VolumeView>::empty(),
{
    lemma_fields_unrecognized(Seq::empty(), lines(b));
    assert(Seq::<Seq<char>>::empty() + lines(b) =~= lines(b));
    assert(volume_fields(Seq::<Seq<char>>::empty()) == empty_volume());
    assert(!has_fields(volume_fields(lines(b))));
    assert(seq![b].drop_last() =~= Seq::<Seq<char>>::empty());
    assert(seq![b].last() == b);
    assert(volumes(Seq::<Seq<char>>::empty()) == Seq::<VolumeView>::empty());
    assert(volumes(seq![b].drop_last()) == Seq::<VolumeView>::empty());
}

/// A block in which exactly one line carries a recognised label gives one
/// volume with exactly one known property.
pub proof fn law_single_label_block(b: Seq<char>, j: int)
    requires
        0 <= j < lines(b).len(),
        recognized(lines(b)[j]),
        forall|i: int| 0 <= i < lines(b).len() && i != j ==> !recognized(#[trigger] lines(b)[i]),
    ensures
        volumes(seq![b]).len() == 1,
        field_count(volumes(seq![b])[0]) == 1,
{
    let ls = lines(b);
    let pre = ls.take(j);
    let post = ls.skip(j + 1);
    assert forall|i: int| 0 <= i < pre.len() implies !recognized(#[trigger] pre[i]) by {
        assert(pre[i] == ls[i]);
    }
    assert forall|i: int| 0 <= i < post.len() implies !recognized(#[trigger] post[i]) by {
        assert(post[i] == ls[j + 1 + i]);
    }
    lemma_fields_unrecognized(Seq::empty(), pre);
    assert(Seq::<Seq<char>>::empty() + pre =~= pre);
    lemma_fields_unrecognized(ls.take(j + 1), post);
    assert(ls.take(j + 1) + post =~= ls);
    assert(ls.take(j + 1).drop_last() =~= pre);
    let v = volume_fields(ls);
    assert(ls.take(j + 1).last() == ls[j]);
    assert(volume_fields(pre) == empty_volume());
    assert(v == volume_step(empty_volume(), ls[j]));
    lemma_recognized_step(ls[j]);
    assert(seq![b].drop_last() =~= Seq::<Seq<char>>::empty());
    assert(seq![b].last() == b);
    assert(volumes(Seq::<Seq<char>>::empty()) == Seq::<VolumeView>::empty());
    assert(volumes(seq![b].drop_last()) == Seq::<VolumeView>::empty());
    assert(seq![b].last() == b);
}

/// An existence probe whose query fails does not fail: it is done, and its
/// answer is that the target does not exist.
pub proof fn law_probe_failure_is_answer(
    r: ActionRequest,
    o: CommandOutcome,
    s: Step,
    out: ActionOutput,
)
    requires
        r.action == Action::HasWorker || r.action == Action::HasVolume,
        !(o is Succeeded),
        step_spec(r, seq![o], s),
        output_spec(r, o, out),
    ensures
        s is Done,
        out == ActionOutput::Exists(false),
{
    assert(command_lines(r).len() == 1);
}

proof fn lemma_contains_at(s: Seq<char>, p: Seq<char>, i: int, k: int)
    requires
        0 <= i <= k,
        k + p.len() <= s.len(),
        s.subrange(k, k + p.len()) == p,
    ensures
        find_seq_from(s, p, i) >= 0,
    decreases k - i,
{
    if i < k && s.subrange(i, i + p.len()) != p {
        lemma_contains_at(s, p, i + 1, k);
    }
}

/// Dispatching a name that no action bears fails with a message that holds
/// the name.
pub proof fn law_unknown_action_message(name: Seq<char>)
    requires
        action_named(name) is None,
    ensures
        contains(not_found_message(name), name),
{
    reveal_strlit("Action '");
    let m = not_found_message(name);
    assert(m.subrange(8, 8 + name.len() as int) =~= name);
    lemma_contains_at(m, name, 0, 8);
}

proof fn lemma_find_seq_match(s: Seq<char>, p: Seq<char>, i: int)
    requires
        0 <= i,
        find_seq_from(s, p, i) >= 0,
    ensures
        find_seq_from(s, p, i) + p.len() <= s.len(),
        s.subrange(find_seq_from(s, p, i), find_seq_from(s, p, i) + p.len()) == p,
    decreases s.len() + 1 - i,
{
    if i + p.len() <= s.len() && s.subrange(i, i + p.len()) != p {
        lemma_find_seq_match(s, p, i + 1);
    }
}

proof fn lemma_label_has_colon(l: Seq<char>, label: Seq<char>)
    requires
        contains(l, label),
        label.len() > 0,
        label.last() == ':',
    ensures
        has_colon(l),
{
    lemma_find_seq_match(l, label, 0);
    let k = find_seq_from(l, label, 0);
    let m = k + label.len() - 1;
    assert(l.subrange(k, k + label.len())[label.len() - 1] == l[m]);
    assert(l[m] == ':');
    lemma_find_from(l, ':', 0);
}

proof fn lemma_created_prefix(ls: Seq<Seq<char>>, j: int, k: int, m: int)
    requires
        0 <= j < ls.len(),
        0 <= k < ls.len(),
        j != k,
        contains(ls[j], "UUID:"@) && has_colon(ls[j]),
        contains(ls[k], "Location:"@) && has_colon(ls[k]) && !contains(ls[k], "UUID:"@),
        forall|i: int|
            0 <= i < ls.len() && i != j && i != k ==> !contains(#[trigger] ls[i], "UUID:"@)
                && !contains(ls[i], "Location:"@),
        0 <= m <= ls.len(),
    ensures
        created_medium(ls.take(m)) == (
            if j < m { after_colon(ls[j]) } else { Seq::<char>::empty() },
            if k < m { after_colon(ls[k]) } else { Seq::<char>::empty() },
        ),
    decreases m,
{
    if m > 0 {
        lemma_created_prefix(ls, j, k, m - 1);
        assert(ls.take(m).drop_last() =~= ls.take(m - 1));
        assert(ls.take(m).last() == ls[m - 1]);
    } else {
        assert(ls.take(0).len() == 0);
    }
}

/// A `create_volume` request issues one `createmedium` command; when exactly
/// one line of what it prints mentions `UUID:` and exactly one other line
/// mentions `Location:`, the result is the text after the first colon of
/// each, trimmed.
pub proof fn law_create_volume_reports(
    r: ActionRequest,
    out: String,
    res: ActionOutput,
    j: int,
    k: int,
)
    requires
        r.action == Action::CreateVolume,
        0 <= j < lines(out@).len(),
        0 <= k < lines(out@).len(),
        j != k,
        contains(lines(out@)[j], "UUID:"@),
        contains(lines(out@)[k], "Location:"@),
        !contains(lines(out@)[k], "UUID:"@),
        forall|i: int|
            0 <= i < lines(out@).len() && i != j && i != k ==> !contains(
                #[trigger] lines(out@)[i],
                "UUID:"@,
            ) && !contains(lines(out@)[i], "Location:"@),
        output_spec(r, CommandOutcome::Succeeded(out), res),
    ensures
        command_lines(r) == seq![
            seq![
                "createmedium"@,
                "disk"@,
                "--filename"@,
                r.text(0),
                "--size"@,
                r.number(1),
                "--format"@,
                "VDI"@,
            ],
        ],
        res is VolumeCreated,
        res->VolumeCreated_uuid@ == after_colon(lines(out@)[j]),
        res->VolumeCreated_path@ == after_colon(lines(out@)[k]),
{
    let ls = lines(out@);
    reveal_strlit("UUID:");
    reveal_strlit("Location:");
    lemma_label_has_colon(ls[j], "UUID:"@);
    lemma_label_has_colon(ls[k], "Location:"@);
    lemma_created_prefix(ls, j, k, ls.len() as int);
    assert(ls.take(ls.len() as int) =~= ls);
}

proof fn lemma_find_seq_prefix(x: Seq<char>, y: Seq<char>, p: Seq<char>, i: int)
    requires
        0 <= i,
        find_seq_from(x, p, i) >= 0,
    ensures
        find_seq_from(x + y, p, i) == find_seq_from(x, p, i),
    decreases x.len() + 1 - i,
{
    if i + p.len() <= x.len() {
        assert((x + y).subrange(i, i + p.len()) =~= x.subrange(i, i + p.len()));
        if x.subrange(i, i + p.len()) != p {
            lemma_find_seq_prefix(x, y, p, i + 1);
        }
    }
}

proof fn lemma_no_match(s: Seq<char>, p: Seq<char>, i: int, m: int)
    requires
        0 <= i <= m,
        m + p.len() <= s.len(),
        find_seq_from(s, p, i) < 0,
    ensures
        s.subrange(m, m + p.len()) != p,
    decreases m - i,
{
    if i < m {
        lemma_no_match(s, p, i + 1, m);
    }
}

proof fn lemma_find_seq_exact(s: Seq<char>, p: Seq<char>, i: int, t: int)
    requires
        0 <= i <= t,
        t + p.len() <= s.len(),
        s.subrange(t, t + p.len()) == p,
        forall|m: int| i <= m < t ==> #[trigger] s.subrange(m, m + p.len()) != p,
    ensures
        find_seq_from(s, p, i) == t,
    decreases t - i,
{
    if i < t {
        lemma_find_seq_exact(s, p, i + 1, t);
    }
}

proof fn lemma_blocks_append(out: Seq<char>, blk: Seq<char>)
    requires
        out.len() == 0 || out.last() != '\n',
        find_seq_from(blk, block_sep(), 0) < 0,
    ensures
        blocks(out + block_sep() + blk) == blocks(out) + seq![blk],
    decreases out.len(),
{
    let sep = block_sep();
    let t = out + sep + blk;
    let k = find_seq_from(out, sep, 0);
    assert(t =~= out + (sep + blk));
    if k >= 0 {
        lemma_find_seq_match(out, sep, 0);
        lemma_find_seq_prefix(out, sep + blk, sep, 0);
        let rest = out.skip(k + 2);
        if rest.len() == 0 {
            assert(out.subrange(k, k + 2)[1] == out[k + 1]);
        } else {
            assert(rest.last() == out.last());
        }
        lemma_blocks_append(rest, blk);
        assert(t.take(k) =~= out.take(k));
        assert(t.skip(k + 2) =~= rest + sep + blk);
        assert(blocks(t) =~= seq![out.take(k)] + blocks(rest + sep + blk));
        assert(blocks(out) =~= seq![out.take(k)] + blocks(rest));
        assert(blocks(t) =~= blocks(out) + seq![blk]);
    } else {
        let n = out.len() as int;
        assert(t.subrange(n, n + 2) =~= sep);
        assert forall|m: int| 0 <= m < n implies #[trigger] t.subrange(m, m + sep.len()) != sep by {
            if m + 2 <= n {
                lemma_no_match(out, sep, 0, m);
                assert(t.subrange(m, m + 2) =~= out.subrange(m, m + 2));
            } else {
                assert(t.subrange(m, m + 2)[0] == out.last());
            }
        }
        lemma_find_seq_exact(t, sep, 0, n);
        assert(t.take(n) =~= out);
        assert(t.skip(n + 2) =~= blk);
        assert(blocks(blk) =~= seq![blk]);
        assert(blocks(out) =~= seq![out]);
        assert(blocks(t) =~= blocks(out) + seq![blk]);
    }
}

/// Appending to a listing of volumes that does not end in a newline an empty
/// line and then a block in which no line carries a recognised label leaves
/// the volumes unchanged.
pub proof fn law_unlabeled_block_appended(out: Seq<char>, blk: Seq<char>)
    requires
        out.len() == 0 || out.last() != '\n',
        find_seq_from(blk, block_sep(), 0) < 0,
        forall|i: int| 0 <= i < lines(blk).len() ==> !recognized(#[trigger] lines(blk)[i]),
    ensures
        volumes(blocks(out + block_sep() + blk)) == volumes(blocks(out)),
{
    lemma_blocks_append(out, blk);
    let bs = blocks(out) + seq![blk];
    lemma_fields_unrecognized(Seq::empty(), lines(blk));
    assert(Seq::<Seq<char>>::empty() + lines(blk) =~= lines(blk));
    assert(volume_fields(Seq::<Seq<char>>::empty()) == empty_volume());
    assert(bs.drop_last() =~= blocks(out));
    assert(bs.last() == blk);
}

} // verus!
