//! The row selector: walk the current snapshot in ascending instance
//! order, apply the visibility filters, run the delta engine, and hand
//! back one row of exact metrics per visible instance.
//!
//! Filters, in order, per instance: when `all` is unset, instances
//! other than the caller's own are skipped; when a previous snapshot
//! exists and does not track the instance, it is skipped as newly
//! appeared (no valid delta this interval); when `activity` is set and
//! all four raw read/write deltas are exactly zero, it is skipped as
//! idle. An instance that survives the first two filters but whose
//! counter group (current or previous) cannot be extracted is a fatal
//! data-integrity error that aborts the whole pass.

use vstd::prelude::*;

use crate::fields::{Field, FieldName, FieldValue, find_field, find_spec, read_string};
use crate::metrics::{DerivedMetrics, Scale, compute_metrics, elapsed_ns, elapsed_spec, metrics_match, metrics_wf};
use crate::snapshot::{CounterGroup, Snapshot};
use crate::stats::{ExtractError, Stats, extract_error, get_stats, stats_of, zero_stats};

verus! {

/// One rendered row: the instance's untruncated id, its zone name cut
/// to at most eight bytes for column alignment (the id in parentheses
/// keeps the row identifiable), and the twelve derived metrics.
#[derive(Clone, Debug)]
pub struct Row {
    pub instance: i32,
    pub zonename: Vec<u8>,
    pub metrics: DerivedMetrics,
}

/// The first eight bytes of a zone name, or all of it when shorter.
/// Zone names are handled as bytes, so for the usual ASCII names this
/// is the first eight characters.
pub open spec fn truncate8(s: Seq<u8>) -> Seq<u8> {
    if s.len() <= 8 {
        s
    } else {
        s.take(8)
    }
}

/// The zone-name bytes of a field set; meaningful only when
/// `zonename_error` is `None`.
pub open spec fn zonename_of(fields: Seq<Field>) -> Seq<u8> {
    find_spec(fields, FieldName::Zonename)->Some_0->Text_0@
}

/// The extraction error of the zone-name field, if any: absent, or not
/// a text value.
pub open spec fn zonename_error(fields: Seq<Field>) -> Option<ExtractError> {
    match find_spec(fields, FieldName::Zonename) {
        Option::None => Some(ExtractError::MissingField(FieldName::Zonename)),
        Option::Some(v) => match v {
            FieldValue::Text(_) => None,
            _ => Some(ExtractError::TypeMismatch(FieldName::Zonename)),
        },
    }
}

/// The instance passes the first two visibility filters: it is the
/// caller's own instance unless `all` is set, and it is not newly
/// appeared (a previous snapshot, when one exists, tracks it).
pub open spec fn visible(g: CounterGroup, old_snap: Option<Snapshot>, id: i32, all: bool) -> bool {
    &&& (all || g.instance == id)
    &&& (old_snap matches Some(o) ==> o.has(g.instance as int))
}

/// The instance's counter group in the previous snapshot, if any.
pub open spec fn prev_group_of(g: CounterGroup, old_snap: Option<Snapshot>) -> Option<CounterGroup> {
    match old_snap {
        Option::None => None,
        Option::Some(o) => if o.has(g.instance as int) {
            Some(o.at(g.instance as int))
        } else {
            None
        },
    }
}

/// The previous counters of an instance: all zero when no previous
/// group exists, so that the first interval reports activity since the
/// instance began being tracked.
pub open spec fn prev_stats_of(p: Option<CounterGroup>) -> Stats {
    match p {
        Option::None => zero_stats(),
        Option::Some(pg) => stats_of(pg.fields@),
    }
}

/// The first extraction failure of one instance's row, if any: the
/// current group's ten counters, then the previous group's, then the
/// current group's zone name.
#[verifier::opaque]
pub open spec fn group_error(g: CounterGroup, p: Option<CounterGroup>) -> Option<ExtractError> {
    if extract_error(g.fields@) is Some {
        extract_error(g.fields@)
    } else {
        match p {
            Option::Some(pg) => if extract_error(pg.fields@) is Some {
                extract_error(pg.fields@)
            } else {
                zonename_error(g.fields@)
            },
            Option::None => zonename_error(g.fields@),
        }
    }
}

/// All four raw read/write deltas are exactly zero: no reads, writes or
/// bytes moved in the interval.
pub open spec fn is_idle(cs: Stats, ps: Stats) -> bool {
    &&& cs.reads == ps.reads
    &&& cs.writes == ps.writes
    &&& cs.nread == ps.nread
    &&& cs.nwritten == ps.nwritten
}

/// The elapsed time base of one instance, against its previous group's
/// snapshot time when one exists.
pub open spec fn elapsed_of(g: CounterGroup, p: Option<CounterGroup>) -> int {
    elapsed_spec(
        g.sampled_at,
        g.created_at,
        match p {
            Option::None => None,
            Option::Some(pg) => Some(pg.sampled_at),
        },
    )
}

/// The instance produces a row: it passes both visibility filters, its
/// groups extract cleanly, and it is not filtered out as idle.
#[verifier::opaque]
pub open spec fn included(
    g: CounterGroup,
    old_snap: Option<Snapshot>,
    id: i32,
    activity: bool,
    all: bool,
) -> bool {
    &&& visible(g, old_snap, id, all)
    &&& group_error(g, prev_group_of(g, old_snap)) is None
    &&& !(activity && is_idle(stats_of(g.fields@), prev_stats_of(prev_group_of(g, old_snap))))
}

/// The row an included instance produces: its id, its truncated zone
/// name, and the delta engine's metrics over its counters, its previous
/// counters and its elapsed time base.
#[verifier::opaque]
pub open spec fn row_matches(row: Row, g: CounterGroup, old_snap: Option<Snapshot>, scale: Scale) -> bool {
    let p = prev_group_of(g, old_snap);
    &&& row.instance == g.instance
    &&& row.zonename@ == truncate8(zonename_of(g.fields@))
    &&& metrics_match(stats_of(g.fields@), prev_stats_of(p), elapsed_of(g, p), scale, row.metrics)
    &&& metrics_wf(row.metrics)
}

/// Some row in `rows` carries instance id `inst`.
#[verifier::opaque]
pub open spec fn row_for_instance(rows: Seq<Row>, inst: int) -> bool {
    exists|k: int| 0 <= k < rows.len() && #[trigger] rows[k].instance == inst
}

/// The rows of one pass are exactly the included instances of the
/// current snapshot, in strictly ascending instance order, each row as
/// `row_matches` states.
pub open spec fn rows_ok(
    rows: Seq<Row>,
    curr: Snapshot,
    old_snap: Option<Snapshot>,
    id: i32,
    scale: Scale,
    activity: bool,
    all: bool,
) -> bool {
    &&& forall|k: int|
        #![trigger rows[k]]
        0 <= k < rows.len() ==> curr.has(rows[k].instance as int) && included(
            curr.at(rows[k].instance as int),
            old_snap,
            id,
            activity,
            all,
        ) && row_matches(rows[k], curr.at(rows[k].instance as int), old_snap, scale)
    &&& forall|j: int|
        0 <= j < curr.groups@.len() && included(#[trigger] curr.groups@[j], old_snap, id, activity, all)
            ==> row_for_instance(rows, curr.groups@[j].instance as int)
    &&& forall|k1: int, k2: int|
        0 <= k1 < k2 < rows.len() ==> #[trigger] rows[k1].instance < #[trigger] rows[k2].instance
}

/// The error of the first instance, in ascending order, that passes
/// both visibility filters but whose row cannot be extracted; `None`
/// when every such instance extracts cleanly.
pub open spec fn first_visible_error(
    groups: Seq<CounterGroup>,
    old_snap: Option<Snapshot>,
    id: i32,
    all: bool,
) -> Option<ExtractError>
    decreases groups.len(),
{
    if groups.len() == 0 {
        None
    } else if visible(groups[0], old_snap, id, all) && group_error(
        groups[0],
        prev_group_of(groups[0], old_snap),
    ) is Some {
        group_error(groups[0], prev_group_of(groups[0], old_snap))
    } else {
        first_visible_error(groups.skip(1), old_snap, id, all)
    }
}

/// Cut a zone name to its first eight bytes for the name column.
fn truncate_name(name: &Vec<u8>) -> (r: Vec<u8>)
    ensures
        r@ == truncate8(name@),
{
    let len: usize = if name.len() >= 8 {
        8
    } else {
        name.len()
    };
    let mut out: Vec<u8> = Vec::new();
    let mut i: usize = 0;
    while i < len
        invariant
            i <= len,
            len <= name@.len(),
            out@ == name@.take(i as int),
        decreases len - i,
    {
        proof {
            assert(name@.take(i + 1) =~= name@.take(i as int).push(name@[i as int]));
        }
        out.push(name[i]);
        i = i + 1;
    }
    proof {
        if len == name@.len() {
            assert(name@.take(len as int) =~= name@);
        }
    }
    out
}

/// Run the visibility filters and the delta engine on one instance:
/// `Ok(Some(row))` for an included instance, `Ok(None)` for a filtered
/// one, and the group's extraction error for a visible instance whose
/// data is malformed.
fn process_group(
    g: &CounterGroup,
    old_snap: &Option<Snapshot>,
    id: i32,
    scale: Scale,
    activity: bool,
    all: bool,
) -> (r: Result<Option<Row>, ExtractError>)
    requires
        *old_snap matches Some(o) ==> o.wf(),
    ensures
        r is Err <==> (visible(*g, *old_snap, id, all) && group_error(
            *g,
            prev_group_of(*g, *old_snap),
        ) is Some),
        r matches Err(e) ==> group_error(*g, prev_group_of(*g, *old_snap)) == Some(e),
        r matches Ok(opt) ==> {
            &&& (opt matches Some(row) ==> row.instance == g.instance && included(
                *g,
                *old_snap,
                id,
                activity,
                all,
            ) && row_matches(row, *g, *old_snap, scale))
            &&& (opt is None ==> !included(*g, *old_snap, id, activity, all))
        },
{
    proof {
        reveal(included);
        reveal(row_matches);
        reveal(group_error);
    }
    // filter 1: only the caller's own instance, unless `all` is set
    if !(all || g.instance == id) {
        return Ok(None);
    }
    let prev: Option<&CounterGroup> = match old_snap {
        Some(o) => o.get(g.instance),
        None => None,
    };
    // filter 2: skip an instance the previous snapshot does not track:
    // it appeared during the run and has no valid delta this interval
    if old_snap.is_some() && prev.is_none() {
        return Ok(None);
    }
    let stats = match get_stats(&g.fields) {
        Ok(s) => s,
        Err(e) => { return Err(e); },
    };
    let old_stats = match prev {
        Some(pg) => match get_stats(&pg.fields) {
            Ok(s) => s,
            Err(e) => { return Err(e); },
        },
        None => Stats::default(),
    };
    let zonename = match find_field(&g.fields, FieldName::Zonename) {
        None => { return Err(ExtractError::MissingField(FieldName::Zonename)); },
        Some(v) => match read_string(v) {
            None => { return Err(ExtractError::TypeMismatch(FieldName::Zonename)); },
            Some(t) => truncate_name(t),
        },
    };
    // filter 3: with `activity` set, skip an instance whose four raw
    // read/write deltas are all exactly zero
    if activity && stats.reads == old_stats.reads && stats.writes == old_stats.writes
        && stats.nread == old_stats.nread && stats.nwritten == old_stats.nwritten {
        return Ok(None);
    }
    let prev_sampled: Option<i64> = match prev {
        Some(pg) => Some(pg.sampled_at),
        None => None,
    };
    let elapsed = elapsed_ns(g.sampled_at, g.created_at, prev_sampled);
    let metrics = compute_metrics(&stats, &old_stats, elapsed, scale);
    Ok(Some(Row { instance: g.instance, zonename, metrics }))
}

/// A witness list `wits`, mapping each row to the index of its group in
/// ascending order, ties the rows to `rows_ok`: each row stands for an
/// included group, every included group has a row, and the rows come
/// out in strictly ascending instance order.
#[verifier::rlimit(100)]
proof fn lemma_rows_ok(
    rows: Seq<Row>,
    wits: Seq<int>,
    curr: Snapshot,
    old_snap: Option<Snapshot>,
    id: i32,
    scale: Scale,
    activity: bool,
    all: bool,
)
    requires
        curr.wf(),
        wits.len() == rows.len(),
        forall|k: int|
            #![trigger rows[k]]
            #![trigger wits[k]]
            0 <= k < rows.len() ==> 0 <= wits[k] < curr.groups@.len() && curr.groups@[wits[k]].instance
                == rows[k].instance && included(curr.groups@[wits[k]], old_snap, id, activity, all)
                && row_matches(rows[k], curr.groups@[wits[k]], old_snap, scale),
        forall|k1: int, k2: int| 0 <= k1 < k2 < wits.len() ==> #[trigger] wits[k1] < #[trigger] wits[k2],
        forall|j: int|
            0 <= j < curr.groups@.len() && included(#[trigger] curr.groups@[j], old_snap, id, activity, all)
                ==> row_for_instance(rows, curr.groups@[j].instance as int),
    ensures
        rows_ok(rows, curr, old_snap, id, scale, activity, all),
{
    assert forall|k: int| #![trigger rows[k]] 0 <= k < rows.len() implies curr.has(
        rows[k].instance as int,
    ) && included(curr.at(rows[k].instance as int), old_snap, id, activity, all) && row_matches(
        rows[k],
        curr.at(rows[k].instance as int),
        old_snap,
        scale,
    ) by {
        let j = wits[k];
        crate::snapshot::lemma_at_index(curr.groups@, j);
        assert(curr.at(rows[k].instance as int) == curr.groups@[j]);
    }
    assert forall|k1: int, k2: int| 0 <= k1 < k2 < rows.len() implies #[trigger] rows[k1].instance
        < #[trigger] rows[k2].instance by {
        assert(wits[k1] < wits[k2]);
        assert(curr.groups@[wits[k1]].instance < curr.groups@[wits[k2]].instance);
    }
}

/// Walk the current snapshot in ascending instance order and hand back
/// the rows of every included instance: exactly one row per instance
/// that passes the three filters, in strictly ascending instance order,
/// each row as `row_matches` states. Fails with the first visible
/// instance's extraction error, if any: malformed provider data aborts
/// the pass rather than rendering misleading zeros.
#[verifier::rlimit(100)]
pub fn print_stats(
    curr: &Snapshot,
    old_snap: &Option<Snapshot>,
    id: i32,
    scale: Scale,
    activity: bool,
    all: bool,
) -> (r: Result<Vec<Row>, ExtractError>)
    requires
        curr.wf(),
        *old_snap matches Some(o) ==> o.wf(),
    ensures
        r matches Ok(rows) ==> rows_ok(rows@, *curr, *old_snap, id, scale, activity, all),
        r matches Err(e) ==> first_visible_error(curr.groups@, *old_snap, id, all) == Some(e),
        r is Err <==> first_visible_error(curr.groups@, *old_snap, id, all) is Some,
{
    let mut rows: Vec<Row> = Vec::new();
    let ghost mut wits = Seq::<int>::empty();
    let mut j: usize = 0;
    proof {
        assert(curr.groups@.skip(0) =~= curr.groups@);
    }
    while j < curr.groups.len()
        invariant
            j <= curr.groups@.len(),
            curr.wf(),
            *old_snap matches Some(o) ==> o.wf(),
            first_visible_error(curr.groups@, *old_snap, id, all) == first_visible_error(
                curr.groups@.skip(j as int),
                *old_snap,
                id,
                all,
            ),
            wits.len() == rows@.len(),
            forall|k: int|
                #![trigger rows@[k]]
                #![trigger wits[k]]
                0 <= k < rows@.len() ==> 0 <= wits[k] < j && curr.groups@[wits[k]].instance
                    == rows@[k].instance && included(curr.groups@[wits[k]], *old_snap, id, activity, all)
                    && row_matches(rows@[k], curr.groups@[wits[k]], *old_snap, scale),
            forall|k1: int, k2: int| 0 <= k1 < k2 < wits.len() ==> #[trigger] wits[k1] < #[trigger] wits[k2],
            forall|j2: int|
                0 <= j2 < j && included(#[trigger] curr.groups@[j2], *old_snap, id, activity, all)
                    ==> row_for_instance(rows@, curr.groups@[j2].instance as int),
        decreases curr.groups@.len() - j,
    {
        let g = &curr.groups[j];
        proof {
            assert(curr.groups@.skip(j as int)[0] == curr.groups@[j as int]);
            assert(curr.groups@.skip(j as int).skip(1) =~= curr.groups@.skip(j + 1));
        }
        match process_group(g, old_snap, id, scale, activity, all) {
            Err(e) => { return Err(e); },
            Ok(None) => {},
            Ok(Some(row)) => {
                let ghost prev_rows = rows@;
                let ghost prev_wits = wits;
                rows.push(row);
                proof {
                    wits = wits.push(j as int);
                    assert(rows@ == prev_rows.push(row));
                    assert(rows@[prev_rows.len() as int] == row);
                    assert(wits[prev_rows.len() as int] == j as int);
                    assert forall|k: int|
                        #![trigger rows@[k]]
                        #![trigger wits[k]]
                        0 <= k < rows@.len() implies 0 <= wits[k] < j + 1 && curr.groups@[wits[k]].instance
                        == rows@[k].instance && included(curr.groups@[wits[k]], *old_snap, id, activity, all)
                        && row_matches(rows@[k], curr.groups@[wits[k]], *old_snap, scale) by {
                        if k < prev_rows.len() {
                            assert(rows@[k] == prev_rows[k]);
                            assert(wits[k] == prev_wits[k]);
                        } else {
                            assert(rows@[k] == row);
                            assert(wits[k] == j as int);
                        }
                    }
                    assert forall|k1: int, k2: int| 0 <= k1 < k2 < wits.len() implies #[trigger] wits[k1]
                        < #[trigger] wits[k2] by {
                        assert(wits[k1] == prev_wits[k1]);
                        if k2 < prev_rows.len() as int {
                            assert(wits[k2] == prev_wits[k2]);
                        } else {
                            assert(prev_wits[k1] < j as int);
                        }
                    }
                    assert forall|j2: int|
                        0 <= j2 < j + 1 && included(#[trigger] curr.groups@[j2], *old_snap, id, activity, all)
                            implies row_for_instance(rows@, curr.groups@[j2].instance as int) by {
                        reveal(row_for_instance);
                        if j2 == j {
                            assert(rows@[rows@.len() - 1].instance == curr.groups@[j2].instance);
                        } else {
                            assert(row_for_instance(prev_rows, curr.groups@[j2].instance as int));
                            let k = choose|k: int|
                                0 <= k < prev_rows.len() && #[trigger] prev_rows[k].instance
                                    == curr.groups@[j2].instance;
                            assert(rows@[k].instance == curr.groups@[j2].instance);
                        }
                    }
                }
            },
        }
        j = j + 1;
    }
    proof {
        assert(curr.groups@.skip(curr.groups@.len() as int) =~= Seq::<CounterGroup>::empty());
        lemma_rows_ok(rows@, wits, *curr, *old_snap, id, scale, activity, all);
    }
    Ok(rows)
}

/// The column header preceding the rendered rows, matching the row
/// field order; `None` when the caller asked to hide it.
pub fn print_header(hide: bool) -> (r: Option<&'static str>)
    ensures
        r is Some <==> !hide,
        r matches Some(s) ==> s@ == header_text(),
{
    if hide {
        return None;
    }
    Some("  r/s   w/s  kr/s  kw/s ractv wactv read_t writ_t     %r     %w    d/s  del_t zone")
}

/// The header line: the thirteen column names, right-aligned in the
/// same fixed widths the rows use.
pub open spec fn header_text() -> Seq<char> {
    "  r/s   w/s  kr/s  kw/s ractv wactv read_t writ_t     %r     %w    d/s  del_t zone"@
}

} // verus!
