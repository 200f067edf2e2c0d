use vstd::prelude::*;

verus! {

/// ASCII `.`.
pub const DOT: u8 = 46;

/// The name of the version-control marker directory, `.git`, as bytes.
pub open spec fn marker_name() -> Seq<u8> {
    seq![DOT, 103u8, 105u8, 116u8]
}

/// A name is hidden when it starts with `.`, unless it ends with the marker
/// name (so the marker directory itself is never hidden).
pub open spec fn is_hidden_name(name: Seq<u8>) -> bool {
    name.len() > 0 && name[0] == DOT && !marker_name().is_suffix_of(name)
}

/// An entry may be walked into only when it is a directory that is not hidden.
pub open spec fn passes_filter(name: Seq<u8>, is_dir: bool) -> bool {
    is_dir && !is_hidden_name(name)
}

/// Whether a marker directory at `depth` has its parent deep enough to be
/// reported: the parent lies at `depth - 1`, which must be at least `min_depth`.
pub open spec fn deep_enough(depth: nat, min_depth: Option<usize>) -> bool {
    match min_depth {
        Some(d) => depth >= d + 1,
        None => true,
    }
}

/// What the walk does with one visited entry.
#[derive(Debug, Clone, Copy, PartialEq, Eq, Structural)]
pub enum Action {
    /// Not a directory: nothing to walk into, nothing to report.
    Ignore,
    /// A directory that is not walked into.
    Prune,
    /// A directory whose contents are walked.
    Descend,
    /// A marker directory: its parent is a repository root. Its contents are
    /// not walked.
    Report,
}

/// The decision for an entry with the given final name, kind and depth
/// (the base directory has depth 0).
pub open spec fn action_for(name: Seq<u8>, is_dir: bool, depth: nat, min_depth: Option<usize>) -> Action {
    if !is_dir {
        Action::Ignore
    } else if is_hidden_name(name) {
        Action::Prune
    } else if name == marker_name() {
        if deep_enough(depth, min_depth) {
            Action::Report
        } else {
            Action::Prune
        }
    } else {
        Action::Descend
    }
}

/// The marker directory is never taken for a hidden one, so the filter never
/// prunes it.
pub proof fn lemma_marker_not_hidden()
    ensures
        !is_hidden_name(marker_name()),
        passes_filter(marker_name(), true),
{
    assert(marker_name().subrange(0, 4) =~= marker_name());
}

/// One entry met by the directory walk, as plain values.
pub struct EntryInfo {
    /// The entry's final path segment, as bytes.
    pub name: Vec<u8>,
    pub is_dir: bool,
    /// Depth below the base directory; the base directory itself has depth 0.
    pub depth: usize,
}

fn is_marker(name: &Vec<u8>) -> (r: bool)
    ensures
        r == (name@ == marker_name()),
{
    let r = name.len() == 4 && name[0] == DOT && name[1] == 103u8 && name[2] == 105u8
        && name[3] == 116u8;
    assert(r ==> name@ =~= marker_name());
    r
}

fn ends_with_marker(name: &Vec<u8>) -> (r: bool)
    ensures
        r == marker_name().is_suffix_of(name@),
{
    let n = name.len();
    if n < 4 {
        return false;
    }
    let r = name[n - 4] == DOT && name[n - 3] == 103u8 && name[n - 2] == 105u8 && name[n - 1]
        == 116u8;
    assert(r ==> name@.subrange(n - 4, n as int) =~= marker_name());
    r
}

/// Whether a name is hidden: it starts with `.` and does not end with `.git`.
pub fn is_hidden(name: &Vec<u8>) -> (r: bool)
    ensures
        r == is_hidden_name(name@),
{
    name.len() > 0 && name[0] == DOT && !ends_with_marker(name)
}

/// Whether the walk may enter an entry: it is a directory and not hidden.
pub fn filter(entry: &EntryInfo) -> (r: bool)
    ensures
        r == passes_filter(entry.name@, entry.is_dir),
{
    entry.is_dir && !is_hidden(&entry.name)
}

/// Decides what the walk does with one entry. A marker directory, never
/// hidden, is reported when its parent lies at least `min_depth` below the
/// base directory; a hidden directory is pruned before it is walked into.
pub fn decide(entry: &EntryInfo, min_depth: Option<usize>) -> (r: Action)
    ensures
        r == action_for(entry.name@, entry.is_dir, entry.depth as nat, min_depth),
        r == Action::Report ==> entry.is_dir && entry.name@ == marker_name() && passes_filter(
            entry.name@,
            entry.is_dir,
        ),
        r == Action::Report ==> deep_enough(entry.depth as nat, min_depth),
        entry.is_dir && is_hidden_name(entry.name@) ==> r == Action::Prune,
        entry.is_dir && entry.name@ == marker_name() && deep_enough(entry.depth as nat, min_depth)
            ==> r == Action::Report,
{
    if !entry.is_dir {
        Action::Ignore
    } else if !filter(entry) {
        Action::Prune
    } else if is_marker(&entry.name) {
        let deep = match min_depth {
            Some(d) => entry.depth > d,
            None => true,
        };
        if deep {
            Action::Report
        } else {
            Action::Prune
        }
    } else {
        Action::Descend
    }
}

/// The name that a visited entry is judged by: the last component of its path
/// below the base directory, or the base directory's own name for the base.
pub open spec fn visit_name(path: Seq<Seq<u8>>, base_name: Seq<u8>) -> Seq<u8> {
    if path.len() == 0 {
        base_name
    } else {
        path.last()
    }
}

/// The decision for one visit of a walk: a path below the base directory, as
/// its components, and whether the entry is a directory.
pub open spec fn visit_action(
    visit: (Seq<Seq<u8>>, bool),
    base_name: Seq<u8>,
    min_depth: Option<usize>,
) -> Action {
    action_for(visit_name(visit.0, base_name), visit.1, visit.0.len(), min_depth)
}

/// A sequence of visits that a walker obeying the decisions can produce: an
/// entry below the base directory is met only after its parent was met and
/// the decision for the parent was to descend into it.
pub open spec fn follows_decisions(
    trace: Seq<(Seq<Seq<u8>>, bool)>,
    base_name: Seq<u8>,
    min_depth: Option<usize>,
) -> bool {
    forall|i: int|
        0 <= i < trace.len() && (#[trigger] trace[i]).0.len() > 0 ==> exists|j: int|
            0 <= j < i && (#[trigger] trace[j]).0 == trace[i].0.drop_last() && visit_action(
                trace[j],
                base_name,
                min_depth,
            ) == Action::Descend
}

proof fn lemma_descended_path_not_hidden(
    trace: Seq<(Seq<Seq<u8>>, bool)>,
    base_name: Seq<u8>,
    min_depth: Option<usize>,
    j: int,
)
    requires
        follows_decisions(trace, base_name, min_depth),
        0 <= j < trace.len(),
        visit_action(trace[j], base_name, min_depth) == Action::Descend,
    ensures
        !is_hidden_name(base_name),
        forall|k: int| 0 <= k < trace[j].0.len() ==> !is_hidden_name(#[trigger] trace[j].0[k]),
    decreases trace[j].0.len(),
{
    let p = trace[j].0;
    if p.len() > 0 {
        let q = choose|q: int|
            0 <= q < j && (#[trigger] trace[q]).0 == trace[j].0.drop_last() && visit_action(
                trace[q],
                base_name,
                min_depth,
            ) == Action::Descend;
        lemma_descended_path_not_hidden(trace, base_name, min_depth, q);
        assert forall|k: int| 0 <= k < p.len() implies !is_hidden_name(#[trigger] p[k]) by {
            if k < p.len() - 1 {
                assert(p[k] == trace[q].0[k]);
            }
        }
    }
}

/// Pruning happens before descent: in any walk that obeys the decisions, a
/// reported marker directory has no hidden directory above it, neither the
/// base directory nor any directory between the base and the marker. So no
/// repository root at or under a hidden directory is ever reported.
pub proof fn lemma_no_report_under_hidden(
    trace: Seq<(Seq<Seq<u8>>, bool)>,
    base_name: Seq<u8>,
    min_depth: Option<usize>,
    i: int,
)
    requires
        follows_decisions(trace, base_name, min_depth),
        0 <= i < trace.len(),
        visit_action(trace[i], base_name, min_depth) == Action::Report,
    ensures
        !is_hidden_name(base_name),
        forall|k: int|
            0 <= k < trace[i].0.len() - 1 ==> !is_hidden_name(#[trigger] trace[i].0[k]),
{
    let p = trace[i].0;
    if p.len() == 0 {
        assert(marker_name().is_suffix_of(base_name)) by {
            assert(base_name.subrange(0, 4) =~= marker_name());
        }
    } else {
        let q = choose|q: int|
            0 <= q < i && (#[trigger] trace[q]).0 == trace[i].0.drop_last() && visit_action(
                trace[q],
                base_name,
                min_depth,
            ) == Action::Descend;
        lemma_descended_path_not_hidden(trace, base_name, min_depth, q);
        assert forall|k: int| 0 <= k < p.len() - 1 implies !is_hidden_name(#[trigger] p[k]) by {
            assert(p[k] == trace[q].0[k]);
        }
    }
}

} // verus!
