//! What holds in general of reconciliation, of the state file and of a run,
//! each statement with its proof.

use vstd::prelude::*;

use crate::digest::digest_of;
use crate::reconcile::{
    delete_batch, eligible, files_view, is_gone, needs_upload, new_entries, path_of, upload_batch,
    uploads_view,
};
use crate::snapshot::{
    distinct_paths, entries_map, lemma_map_has_path, lemma_path_index, lemma_upsert, path_index,
    upsert,
};
use crate::state::{
    collected, first_index_of, lemma_first_index, lemma_first_index_of, line_record, line_records,
    lines, rendered, without_return,
};
use crate::sync::{
    accepted_types, awaits, steps_to, SyncAction, SyncError, SyncEvent, SyncOptions, SyncState,
};
use crate::text::strings_view;

verus! {

/// Some file of the tree takes part and has the path `path`.
pub open spec fn tree_has(
    files: Seq<(Seq<char>, Seq<u8>)>,
    allowed: Option<Seq<Seq<char>>>,
    exclude: Option<Seq<char>>,
    path: Seq<char>,
) -> bool {
    exists|i: int|
        0 <= i < files.len() && eligible((#[trigger] files[i]).0, allowed, exclude) && files[i].0
            == path
}

/// Files that take part and share a path have the same content digest. A
/// tree that lists each path once is of this kind.
pub open spec fn one_digest_per_path(
    files: Seq<(Seq<char>, Seq<u8>)>,
    allowed: Option<Seq<Seq<char>>>,
    exclude: Option<Seq<char>>,
) -> bool {
    forall|i: int, j: int|
        0 <= i < files.len() && 0 <= j < files.len() && eligible(
            (#[trigger] files[i]).0,
            allowed,
            exclude,
        ) && files[i].0 == (#[trigger] files[j]).0 ==> digest_of(files[i].1) == digest_of(
            files[j].1,
        )
}

/// The tree matches the baseline: every file that takes part has its digest
/// in the baseline, and every path of the baseline is that of a file that
/// takes part.
pub open spec fn tree_matches(
    baseline: Map<Seq<char>, Seq<char>>,
    files: Seq<(Seq<char>, Seq<u8>)>,
    allowed: Option<Seq<Seq<char>>>,
    exclude: Option<Seq<char>>,
) -> bool {
    &&& forall|i: int|
        0 <= i < files.len() && eligible((#[trigger] files[i]).0, allowed, exclude)
            ==> baseline.contains_key(files[i].0) && baseline[files[i].0] == digest_of(files[i].1)
    &&& forall|p: Seq<char>| #[trigger]
        baseline.contains_key(p) ==> tree_has(files, allowed, exclude, p)
}

/// The new snapshot never holds a path twice, and grows file by file: a file
/// that takes part sets the digest of its path, any other file changes
/// nothing.
pub proof fn lemma_new_state_step(
    files: Seq<(Seq<char>, Seq<u8>)>,
    allowed: Option<Seq<Seq<char>>>,
    exclude: Option<Seq<char>>,
)
    ensures
        distinct_paths(new_entries(files, allowed, exclude)),
        files.len() > 0 ==> entries_map(new_entries(files, allowed, exclude)) == if eligible(
            files.last().0,
            allowed,
            exclude,
        ) {
            entries_map(new_entries(files.drop_last(), allowed, exclude)).insert(
                files.last().0,
                digest_of(files.last().1),
            )
        } else {
            entries_map(new_entries(files.drop_last(), allowed, exclude))
        },
    decreases files.len(),
{
    if files.len() > 0 {
        lemma_new_state_step(files.drop_last(), allowed, exclude);
        lemma_upsert(
            new_entries(files.drop_last(), allowed, exclude),
            files.last().0,
            digest_of(files.last().1),
        );
    }
}

/// The new snapshot holds exactly the paths of the files that take part.
pub proof fn lemma_new_state_paths(
    files: Seq<(Seq<char>, Seq<u8>)>,
    allowed: Option<Seq<Seq<char>>>,
    exclude: Option<Seq<char>>,
    path: Seq<char>,
)
    ensures
        entries_map(new_entries(files, allowed, exclude)).contains_key(path) <==> tree_has(
            files,
            allowed,
            exclude,
            path,
        ),
    decreases files.len(),
{
    if files.len() > 0 {
        let front = files.drop_last();
        lemma_new_state_step(files, allowed, exclude);
        lemma_new_state_paths(front, allowed, exclude, path);
        if tree_has(front, allowed, exclude, path) {
            let w = choose|i: int|
                0 <= i < front.len() && eligible((#[trigger] front[i]).0, allowed, exclude)
                    && front[i].0 == path;
            assert(files[w] == front[w]);
        }
        if tree_has(files, allowed, exclude, path) {
            let w = choose|i: int|
                0 <= i < files.len() && eligible((#[trigger] files[i]).0, allowed, exclude)
                    && files[i].0 == path;
            if w < front.len() {
                assert(front[w] == files[w]);
            }
        }
        if eligible(files.last().0, allowed, exclude) && files.last().0 == path {
            assert(files[files.len() - 1].0 == path);
        }
    }
}

/// Where every file that takes part has its digest in `baseline`, the new
/// snapshot holds nothing that `baseline` does not hold.
pub proof fn lemma_new_state_within(
    baseline: Map<Seq<char>, Seq<char>>,
    files: Seq<(Seq<char>, Seq<u8>)>,
    allowed: Option<Seq<Seq<char>>>,
    exclude: Option<Seq<char>>,
)
    requires
        forall|i: int|
            0 <= i < files.len() && eligible((#[trigger] files[i]).0, allowed, exclude)
                ==> baseline.contains_key(files[i].0) && baseline[files[i].0] == digest_of(
                files[i].1,
            ),
    ensures
        forall|p: Seq<char>| #[trigger]
            entries_map(new_entries(files, allowed, exclude)).contains_key(p)
                ==> baseline.contains_key(p) && baseline[p] == entries_map(
                new_entries(files, allowed, exclude),
            )[p],
    decreases files.len(),
{
    if files.len() > 0 {
        let front = files.drop_last();
        assert forall|i: int|
            0 <= i < front.len() && eligible(
                (#[trigger] front[i]).0,
                allowed,
                exclude,
            ) implies baseline.contains_key(front[i].0) && baseline[front[i].0] == digest_of(
            front[i].1,
        ) by {
            assert(front[i] == files[i]);
        }
        lemma_new_state_within(baseline, front, allowed, exclude);
        lemma_new_state_step(files, allowed, exclude);
        assert(files[files.len() - 1] == files.last());
    }
}

/// A filter that no item passes leaves nothing.
pub proof fn lemma_filter_none<A>(items: Seq<A>, test: spec_fn(A) -> bool)
    requires
        forall|i: int| 0 <= i < items.len() ==> !test(#[trigger] items[i]),
    ensures
        items.filter(test) == Seq::<A>::empty(),
    decreases items.len(),
{
    reveal(Seq::filter);
    if items.len() > 0 {
        let front = items.drop_last();
        assert forall|i: int| 0 <= i < front.len() implies !test(#[trigger] front[i]) by {
            assert(front[i] == items[i]);
        }
        lemma_filter_none(front, test);
        assert(!test(items[items.len() - 1]));
    }
}

/// What passes a filter was in the sequence and passes the test.
pub proof fn lemma_filter_member<A>(items: Seq<A>, test: spec_fn(A) -> bool, i: int)
    requires
        0 <= i < items.filter(test).len(),
    ensures
        test(items.filter(test)[i]),
        items.contains(items.filter(test)[i]),
{
    items.lemma_filter_pred(test, i);
    let kept = items.filter(test);
    assert(kept.contains(kept[i]));
    items.lemma_filter_contains_rev(test, kept[i]);
}

/// Every path on the delete batch is a path of the baseline that the new
/// snapshot lacks, and is not the path of the excluded file.
pub proof fn law_deleted_paths(
    baseline: Seq<(Seq<char>, Seq<char>)>,
    new_state: Map<Seq<char>, Seq<char>>,
    exclude: Option<Seq<char>>,
    i: int,
)
    requires
        0 <= i < delete_batch(baseline, new_state, exclude).len(),
    ensures
        entries_map(baseline).contains_key(delete_batch(baseline, new_state, exclude)[i]),
        !new_state.contains_key(delete_batch(baseline, new_state, exclude)[i]),
        exclude != Some(delete_batch(baseline, new_state, exclude)[i]),
{
    let gone = baseline.filter(is_gone(new_state, exclude));
    lemma_filter_member(baseline, is_gone(new_state, exclude), i);
    let w = choose|k: int| 0 <= k < baseline.len() && baseline[k] == gone[i];
    assert(baseline[w].0 == gone[i].0);
    lemma_map_has_path(baseline, gone[i].0);
}

/// Every path of the baseline that the new snapshot lacks is on the delete
/// batch, unless it is the path of the excluded file.
pub proof fn law_gone_paths_deleted(
    baseline: Seq<(Seq<char>, Seq<char>)>,
    new_state: Map<Seq<char>, Seq<char>>,
    exclude: Option<Seq<char>>,
    path: Seq<char>,
)
    requires
        entries_map(baseline).contains_key(path),
        !new_state.contains_key(path),
        exclude != Some(path),
    ensures
        delete_batch(baseline, new_state, exclude).contains(path),
{
    lemma_map_has_path(baseline, path);
    let w = choose|k: int| 0 <= k < baseline.len() && (#[trigger] baseline[k]).0 == path;
    baseline.lemma_filter_contains(is_gone(new_state, exclude), w);
    let gone = baseline.filter(is_gone(new_state, exclude));
    let k = choose|k: int| 0 <= k < gone.len() && gone[k] == baseline[w];
    assert(gone.map_values(path_of())[k] == path);
}

/// An unchanged tree: where the files that take part match the baseline in
/// paths and digests, nothing is uploaded, nothing is deleted, and the new
/// snapshot is the baseline.
pub proof fn law_unchanged_tree(
    baseline: Seq<(Seq<char>, Seq<char>)>,
    files: Seq<(Seq<char>, Seq<u8>)>,
    allowed: Option<Seq<Seq<char>>>,
    exclude: Option<Seq<char>>,
)
    requires
        tree_matches(entries_map(baseline), files, allowed, exclude),
    ensures
        upload_batch(entries_map(baseline), files, allowed, exclude).len() == 0,
        delete_batch(
            baseline,
            entries_map(new_entries(files, allowed, exclude)),
            exclude,
        ).len() == 0,
        entries_map(new_entries(files, allowed, exclude)) == entries_map(baseline),
{
    let old_state = entries_map(baseline);
    let new_state = entries_map(new_entries(files, allowed, exclude));
    lemma_new_state_within(old_state, files, allowed, exclude);
    assert forall|p: Seq<char>| old_state.contains_key(p) implies new_state.contains_key(p) by {
        lemma_new_state_paths(files, allowed, exclude, p);
    }
    assert(new_state =~= old_state);
    lemma_filter_none(files, needs_upload(old_state, allowed, exclude));
    assert forall|k: int| 0 <= k < baseline.len() implies !is_gone(new_state, exclude)(
        #[trigger] baseline[k],
    ) by {
        lemma_map_has_path(baseline, baseline[k].0);
    }
    lemma_filter_none(baseline, is_gone(new_state, exclude));
}

/// Idempotence: a second run over the same tree, with the first run's new
/// snapshot as its baseline, uploads nothing and deletes nothing, and its
/// new snapshot is that of the first run. The first run's baseline plays no
/// part in this.
pub proof fn law_second_run_is_idle(
    files: Seq<(Seq<char>, Seq<u8>)>,
    allowed: Option<Seq<Seq<char>>>,
    exclude: Option<Seq<char>>,
)
    requires
        one_digest_per_path(files, allowed, exclude),
    ensures
        upload_batch(
            entries_map(new_entries(files, allowed, exclude)),
            files,
            allowed,
            exclude,
        ).len() == 0,
        delete_batch(
            new_entries(files, allowed, exclude),
            entries_map(new_entries(files, allowed, exclude)),
            exclude,
        ).len() == 0,
{
    let first = new_entries(files, allowed, exclude);
    let state = entries_map(first);
    assert forall|i: int|
        0 <= i < files.len() && eligible(
            (#[trigger] files[i]).0,
            allowed,
            exclude,
        ) implies state.contains_key(files[i].0) && state[files[i].0] == digest_of(
        files[i].1,
    ) by {
        lemma_last_digest_wins(files, allowed, exclude, i);
    }
    assert forall|p: Seq<char>| #[trigger] state.contains_key(p) implies tree_has(
        files,
        allowed,
        exclude,
        p,
    ) by {
        lemma_new_state_paths(files, allowed, exclude, p);
    }
    law_unchanged_tree(first, files, allowed, exclude);
}

/// With one digest per path, the new snapshot holds for every file that
/// takes part the digest of that file.
pub proof fn lemma_last_digest_wins(
    files: Seq<(Seq<char>, Seq<u8>)>,
    allowed: Option<Seq<Seq<char>>>,
    exclude: Option<Seq<char>>,
    i: int,
)
    requires
        one_digest_per_path(files, allowed, exclude),
        0 <= i < files.len(),
        eligible(files[i].0, allowed, exclude),
    ensures
        entries_map(new_entries(files, allowed, exclude)).contains_key(files[i].0),
        entries_map(new_entries(files, allowed, exclude))[files[i].0] == digest_of(files[i].1),
    decreases files.len(),
{
    let front = files.drop_last();
    lemma_new_state_step(files, allowed, exclude);
    assert(files[files.len() - 1] == files.last());
    if i < files.len() - 1 {
        assert forall|a: int, b: int|
            0 <= a < front.len() && 0 <= b < front.len() && eligible(
                (#[trigger] front[a]).0,
                allowed,
                exclude,
            ) && front[a].0 == (#[trigger] front[b]).0 implies digest_of(front[a].1)
            == digest_of(front[b].1) by {
            assert(front[a] == files[a] && front[b] == files[b]);
        }
        assert(front[i] == files[i]);
        lemma_last_digest_wins(front, allowed, exclude, i);
    }
}

/// Self-exclusion, for the new snapshot and the upload batch: the excluded
/// file is in neither, whatever the baseline and the tree hold.
pub proof fn law_excluded_file_not_recorded(
    baseline: Map<Seq<char>, Seq<char>>,
    files: Seq<(Seq<char>, Seq<u8>)>,
    allowed: Option<Seq<Seq<char>>>,
    state_path: Seq<char>,
)
    ensures
        !entries_map(new_entries(files, allowed, Some(state_path))).contains_key(state_path),
        forall|i: int|
            0 <= i < upload_batch(baseline, files, allowed, Some(state_path)).len() ==> (
            #[trigger] upload_batch(baseline, files, allowed, Some(state_path))[i]).0
                != state_path,
{
    lemma_new_state_paths(files, allowed, Some(state_path), state_path);
    let batch = upload_batch(baseline, files, allowed, Some(state_path));
    assert forall|i: int| 0 <= i < batch.len() implies (#[trigger] batch[i]).0 != state_path by {
        lemma_filter_member(files, needs_upload(baseline, allowed, Some(state_path)), i);
    }
}

/// Self-exclusion, for the delete batch: the excluded file is not on the
/// delete batch, whatever the baseline and the new snapshot hold.
pub proof fn law_excluded_file_not_deleted(
    baseline: Seq<(Seq<char>, Seq<char>)>,
    new_state: Map<Seq<char>, Seq<char>>,
    state_path: Seq<char>,
)
    ensures
        !delete_batch(baseline, new_state, Some(state_path)).contains(state_path),
{
    let batch = delete_batch(baseline, new_state, Some(state_path));
    if batch.contains(state_path) {
        let i = choose|i: int| 0 <= i < batch.len() && batch[i] == state_path;
        law_deleted_paths(baseline, new_state, Some(state_path), i);
    }
}

/// A filter that every item passes leaves everything.
pub proof fn lemma_filter_all<A>(items: Seq<A>, test: spec_fn(A) -> bool)
    requires
        forall|i: int| 0 <= i < items.len() ==> test(#[trigger] items[i]),
    ensures
        items.filter(test) == items,
    decreases items.len(),
{
    reveal(Seq::filter);
    if items.len() > 0 {
        let front = items.drop_last();
        assert forall|i: int| 0 <= i < front.len() implies test(#[trigger] front[i]) by {
            assert(front[i] == items[i]);
        }
        lemma_filter_all(front, test);
        assert(test(items[items.len() - 1]));
        assert(front.push(items.last()) == items);
    }
}

/// Two tests that agree on every item of a sequence leave the same items.
pub proof fn lemma_filter_same<A>(items: Seq<A>, one: spec_fn(A) -> bool, other: spec_fn(A) -> bool)
    requires
        forall|i: int| 0 <= i < items.len() ==> one(#[trigger] items[i]) == other(items[i]),
    ensures
        items.filter(one) == items.filter(other),
    decreases items.len(),
{
    reveal(Seq::filter);
    if items.len() > 0 {
        let front = items.drop_last();
        assert forall|i: int| 0 <= i < front.len() implies one(#[trigger] front[i]) == other(
            front[i],
        ) by {
            assert(front[i] == items[i]);
        }
        lemma_filter_same(front, one, other);
        assert(one(items[items.len() - 1]) == other(items[items.len() - 1]));
    }
}

/// An empty tree: nothing is recorded, nothing is uploaded, and every path
/// of the baseline is deleted, but for that of the excluded file.
pub proof fn law_empty_tree(
    baseline: Seq<(Seq<char>, Seq<char>)>,
    allowed: Option<Seq<Seq<char>>>,
    exclude: Option<Seq<char>>,
)
    ensures
        new_entries(Seq::empty(), allowed, exclude).len() == 0,
        upload_batch(entries_map(baseline), Seq::empty(), allowed, exclude).len() == 0,
        delete_batch(
            baseline,
            entries_map(new_entries(Seq::empty(), allowed, exclude)),
            exclude,
        ) == baseline.filter(|e: (Seq<char>, Seq<char>)| exclude != Some(e.0)).map_values(
            path_of(),
        ),
        exclude is None ==> delete_batch(
            baseline,
            entries_map(new_entries(Seq::empty(), allowed, exclude)),
            exclude,
        ) == baseline.map_values(path_of()),
{
    let tree = Seq::<(Seq<char>, Seq<u8>)>::empty();
    let gone = is_gone(entries_map(new_entries(tree, allowed, exclude)), exclude);
    lemma_filter_none(tree, needs_upload(entries_map(baseline), allowed, exclude));
    lemma_filter_same(baseline, gone, |e: (Seq<char>, Seq<char>)| exclude != Some(e.0));
    if exclude is None {
        lemma_filter_all(baseline, gone);
    }
}

/// An empty baseline: nothing is deleted, and every file that takes part is
/// uploaded.
pub proof fn law_empty_baseline(
    files: Seq<(Seq<char>, Seq<u8>)>,
    allowed: Option<Seq<Seq<char>>>,
    exclude: Option<Seq<char>>,
)
    ensures
        delete_batch(
            Seq::empty(),
            entries_map(new_entries(files, allowed, exclude)),
            exclude,
        ).len() == 0,
        upload_batch(Map::empty(), files, allowed, exclude) == files.filter(
            |f: (Seq<char>, Seq<u8>)| eligible(f.0, allowed, exclude),
        ),
{
    lemma_filter_none(
        Seq::<(Seq<char>, Seq<char>)>::empty(),
        is_gone(entries_map(new_entries(files, allowed, exclude)), exclude),
    );
    lemma_filter_same(
        files,
        needs_upload(Map::empty(), allowed, exclude),
        |f: (Seq<char>, Seq<u8>)| eligible(f.0, allowed, exclude),
    );
}

/// The line that a record is written as, without its line feed.
pub open spec fn record_line(record: (Seq<char>, Seq<char>)) -> Seq<char> {
    record.0 + seq![':'] + record.1
}

/// Records that a state file can hold: no path with a colon or a line feed
/// in it, no digest with a line feed in it or a carriage return at its end.
pub open spec fn storable(records: Seq<(Seq<char>, Seq<char>)>) -> bool {
    forall|i: int|
        0 <= i < records.len() ==> {
            let record = #[trigger] records[i];
            &&& !record.0.contains(':')
            &&& !record.0.contains('\n')
            &&& !record.1.contains('\n')
            &&& (record.1.len() > 0 ==> record.1.last() != '\r')
        }
}

/// A text that ends with a line feed, followed by another: the lines of the
/// first, then the lines of the second.
pub proof fn lemma_lines_of_two(first: Seq<char>, second: Seq<char>)
    requires
        first.len() == 0 || first.last() == '\n',
    ensures
        lines(first + second) == lines(first) + lines(second),
    decreases first.len(),
{
    if first.len() == 0 {
        assert(first + second == second);
        assert(lines(first) + lines(second) == lines(second));
    } else {
        let both = first + second;
        lemma_first_index(first, '\n');
        let n = first_index_of(first, '\n') as int;
        assert(n < first.len()) by {
            if n >= first.len() {
                assert(first[first.len() - 1] != '\n');
            }
        }
        assert forall|j: int| 0 <= j < n implies both[j] != '\n' by {
            assert(both[j] == first[j]);
        }
        lemma_first_index_of(both, '\n', n);
        assert(both.take(n) == first.take(n));
        let rest = first.skip(n + 1);
        assert(both.skip(n + 1) == rest + second);
        if rest.len() > 0 {
            assert(rest.last() == first.last());
        }
        lemma_lines_of_two(rest, second);
        assert(seq![without_return(first.take(n))] + (lines(rest) + lines(second)) == (seq![
            without_return(first.take(n)),
        ] + lines(rest)) + lines(second));
    }
}

/// The text of storable records has one line for each record, and each line
/// reads as its record.
pub proof fn lemma_rendered_lines(records: Seq<(Seq<char>, Seq<char>)>)
    requires
        storable(records),
    ensures
        rendered(records).len() == 0 || rendered(records).last() == '\n',
        lines(rendered(records)) == records.map_values(
            |r: (Seq<char>, Seq<char>)| record_line(r),
        ),
        line_records(lines(rendered(records))) == records,
    decreases records.len(),
{
    let as_line = |r: (Seq<char>, Seq<char>)| record_line(r);
    if records.len() == 0 {
        assert(lines(rendered(records)) == records.map_values(as_line));
    } else {
        let front = records.drop_last();
        let last = records.last();
        assert(last == records[records.len() - 1]);
        assert forall|i: int| 0 <= i < front.len() implies {
            let record = #[trigger] front[i];
            &&& !record.0.contains(':')
            &&& !record.0.contains('\n')
            &&& !record.1.contains('\n')
            &&& (record.1.len() > 0 ==> record.1.last() != '\r')
        } by {
            assert(front[i] == records[i]);
        }
        lemma_rendered_lines(front);
        let line = record_line(last);
        let ended = line + seq!['\n'];
        assert(rendered(records) == rendered(front) + ended);
        lemma_lines_of_two(rendered(front), ended);
        // The one line of `ended` is `line`.
        assert forall|j: int| 0 <= j < line.len() implies ended[j] != '\n' by {
            if j < last.0.len() {
                assert(last.0.contains(last.0[j]));
            } else if j > last.0.len() {
                assert(last.1.contains(last.1[j - last.0.len() - 1]));
            }
        }
        lemma_first_index_of(ended, '\n', line.len() as int);
        assert(ended.take(line.len() as int) == line);
        assert(ended.skip(line.len() as int + 1) == Seq::<char>::empty());
        assert(without_return(line) == line) by {
            if last.1.len() > 0 {
                assert(line.last() == last.1.last());
            } else {
                assert(line.last() == ':');
            }
        }
        assert(lines(Seq::<char>::empty()) == Seq::<Seq<char>>::empty());
        assert(lines(ended) =~= seq![line]);
        let all = lines(rendered(records));
        assert(all == lines(rendered(front)).push(line));
        assert(all == records.map_values(as_line));
        // The line reads as the record.
        assert forall|j: int| 0 <= j < last.0.len() implies line[j] != ':' by {
            assert(last.0.contains(last.0[j]));
        }
        lemma_first_index_of(line, ':', last.0.len() as int);
        assert(line.take(last.0.len() as int) == last.0);
        assert(line.skip(last.0.len() as int + 1) == last.1);
        assert(line_record(line) == Some(last));
        assert(all.drop_last() == lines(rendered(front)));
        assert(front.push(last) == records);
    }
}

/// Records with distinct paths, set in order, make a snapshot of just these
/// records in that order.
pub proof fn lemma_collected_distinct(records: Seq<(Seq<char>, Seq<char>)>)
    requires
        distinct_paths(records),
    ensures
        collected(records) == records,
    decreases records.len(),
{
    if records.len() > 0 {
        let front = records.drop_last();
        let last = records.last();
        assert forall|a: int, b: int| 0 <= a < b < front.len() implies (#[trigger] front[a]).0 != (
        #[trigger] front[b]).0 by {
            assert(front[a] == records[a] && front[b] == records[b]);
        }
        lemma_collected_distinct(front);
        lemma_path_index(front, last.0);
        if path_index(front, last.0) < front.len() {
            let k = path_index(front, last.0);
            assert(front[k] == records[k]);
            assert(records[k].0 != records[records.len() - 1].0);
        }
        assert(upsert(front, last.0, last.1) == front.push(last));
        assert(front.push(last) == records);
    }
}

/// What is written is read back: the text of a snapshot whose records are
/// storable reads as that snapshot, record by record.
pub proof fn law_written_state_is_read_back(records: Seq<(Seq<char>, Seq<char>)>)
    requires
        distinct_paths(records),
        storable(records),
    ensures
        collected(line_records(lines(rendered(records)))) == records,
{
    lemma_rendered_lines(records);
    lemma_collected_distinct(records);
}

/// A step changes nothing exactly when its event is not the awaited one.
pub proof fn law_unawaited_event_changes_nothing(
    state: SyncState,
    event: SyncEvent,
    options: SyncOptions,
    next: (SyncState, SyncAction),
)
    requires
        steps_to(state, event, options, next),
        !awaits(state, event),
    ensures
        next.0 == state,
        next.1 is Stop,
{
}

/// A run that is over stays as it is, whatever happens.
pub proof fn law_over_is_over(
    state: SyncState,
    event: SyncEvent,
    options: SyncOptions,
    next: (SyncState, SyncAction),
)
    requires
        steps_to(state, event, options, next),
        state is Done || state is Failed,
    ensures
        next.0 == state,
        next.1 is Stop,
{
}

/// The new snapshot is written only once the upload and the deletion have
/// both gone well; no failure leads to a written snapshot.
pub proof fn law_written_only_after_both(
    state: SyncState,
    event: SyncEvent,
    options: SyncOptions,
    next: (SyncState, SyncAction),
)
    requires
        steps_to(state, event, options, next),
        next.1 is Persist,
    ensures
        state is DispatchRemote,
        event matches SyncEvent::Dispatched(Ok(_), Ok(_)),
        next.0 is PersistSnapshot,
{
}

/// A run becomes done only by the new snapshot having been written, and its
/// counts are those of the batches that went out.
pub proof fn law_done_only_after_written(
    state: SyncState,
    event: SyncEvent,
    options: SyncOptions,
    next: (SyncState, SyncAction),
)
    requires
        steps_to(state, event, options, next),
        next.0 is Done,
        !(state is Done),
    ensures
        state matches SyncState::PersistSnapshot { stats } && next.0 == SyncState::Done(stats),
        event matches SyncEvent::Persisted(Ok(_)),
{
}

/// Every awaited event that reports a failure ends the run as failed.
pub proof fn law_failure_ends_the_run(
    state: SyncState,
    event: SyncEvent,
    options: SyncOptions,
    next: (SyncState, SyncAction),
)
    requires
        steps_to(state, event, options, next),
        awaits(state, event),
        match event {
            SyncEvent::StateRead(read) => read is Err,
            SyncEvent::Listed(listed) => listed is Err,
            SyncEvent::TreeRead(read) => read is Err,
            SyncEvent::Dispatched(uploaded, deleted) => uploaded is Err || deleted is Err,
            SyncEvent::Persisted(written) => written is Err,
        },
    ensures
        next.0 is Failed,
        next.1 is Stop,
{
}

/// The remote listing is asked for only at the start of a run, and only
/// where there is no state file.
pub proof fn law_listing_only_without_state_file(
    state: SyncState,
    event: SyncEvent,
    options: SyncOptions,
    next: (SyncState, SyncAction),
)
    requires
        steps_to(state, event, options, next),
        next.1 is FetchListing,
    ensures
        state is ResolveBaseline,
        event matches SyncEvent::StateRead(Ok(None)),
        next.0 is FetchBaseline,
{
}

/// A state file that is there and cannot be read ends the run with that
/// failure: nothing is asked of the remote host, and nothing is written.
pub proof fn law_unreadable_state_file_ends_the_run(
    error: std::io::Error,
    options: SyncOptions,
    next: (SyncState, SyncAction),
)
    requires
        steps_to(SyncState::ResolveBaseline, SyncEvent::StateRead(Err(error)), options, next),
    ensures
        next.0 == SyncState::Failed(SyncError::IOError(error)),
        next.1 is Stop,
{
}

/// Self-exclusion, for a run: whatever the baseline and the tree hold, the
/// state file is neither among the files that go out for upload nor among
/// the paths that go out for deletion, and the snapshot that is kept has no
/// record for it.
pub proof fn law_state_file_is_not_dispatched(
    state: SyncState,
    event: SyncEvent,
    options: SyncOptions,
    next: (SyncState, SyncAction),
)
    requires
        steps_to(state, event, options, next),
        options.state_path_relative_to_path is Some,
        next.1 is Dispatch,
    ensures
        ({
            let state_path = options.state_path_relative_to_path->0@;
            &&& next.1 matches SyncAction::Dispatch { to_be_uploaded, to_be_deleted }
            &&& next.0 matches SyncState::DispatchRemote { new_state, stats }
            &&& !strings_view(to_be_deleted@).contains(state_path)
            &&& forall|i: int|
                0 <= i < to_be_uploaded@.len() ==> (#[trigger] uploads_view(
                    to_be_uploaded@,
                )[i]).0 != state_path
            &&& !new_state@.contains_key(state_path)
        }),
{
    let state_path = options.state_path_relative_to_path->0@;
    match (state, event) {
        (SyncState::Reconcile { current_state }, SyncEvent::TreeRead(Ok(files))) => {
            law_excluded_file_not_recorded(
                current_state@,
                files_view(files@),
                accepted_types(options),
                state_path,
            );
            match next.0 {
                SyncState::DispatchRemote { new_state, stats } => {
                    law_excluded_file_not_deleted(
                        current_state.entries(),
                        new_state@,
                        state_path,
                    );
                },
                _ => {},
            }
        },
        _ => {},
    }
}

} // verus!
