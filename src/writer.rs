use crate::config::{lookup, ConfigTable, ConfigValue};
use crate::resolve::{str_of, texts};
use crate::validate::Section;
use vstd::prelude::*;

verus! {

/// The name of the file written into each installation directory.
pub const REALMLIST_FILE: &'static str = "realmlist.wtf";

/// The error reported when `PATHS` is not a list of strings.
pub const PATHS_SHAPE_ERROR: &'static str = "the settings file should hold a <PATHS> section that is a list of strings";

/// How writing the file into a directory failed.
pub enum WriteFailure {
    /// A component of the file's path does not exist.
    NotFound,
    PermissionDenied,
    /// Any other failure, with the system's description.
    Other(String),
}

/// What became of one installation directory.
pub enum TargetStatus {
    /// The path does not name an existing directory.
    NotADirectory,
    /// The file at this path was written.
    Written(String),
    /// Writing the file at this path failed.
    Failed(String, WriteFailure),
}

/// The directive line that makes the client connect to `address`.
pub open spec fn directive_of(address: Seq<char>) -> Seq<char> {
    "set realmlist "@ + address
}

/// The directive that selects the realm at `address`.
pub fn realmlist_line(address: &str) -> (r: String)
    ensures
        r@ == directive_of(address@),
{
    String::from_str("set realmlist ").concat(address)
}

/// The elements of the `PATHS` section of `e`, where it is a list.
pub open spec fn path_list(e: Seq<(String, ConfigValue)>) -> Option<Seq<ConfigValue>> {
    match lookup(e, Section::Paths.key_spec()) {
        Some(ConfigValue::Array(a)) => Some(a@),
        _ => None,
    }
}

/// Every element is a string.
pub open spec fn all_strings(a: Seq<ConfigValue>) -> bool {
    forall|i: int| 0 <= i < a.len() ==> (#[trigger] a[i]) is Str
}

/// The texts of string values.
pub open spec fn strs(a: Seq<ConfigValue>) -> Seq<Seq<char>> {
    a.map_values(|v: ConfigValue| str_of(v))
}

/// The installation directories of the document: all of `PATHS`, in order,
/// or the shape error where `PATHS` is absent, not a list, or holds anything
/// but strings.
pub fn target_paths(config: &ConfigTable) -> (r: Result<Vec<String>, String>)
    ensures
        r is Ok <==> (path_list(config@) matches Some(a) && all_strings(a)),
        r matches Ok(v) ==> path_list(config@) matches Some(a) && texts(v@) == strs(a),
        r matches Err(m) ==> m@ == PATHS_SHAPE_ERROR@,
{
    let a = match config.get(Section::Paths.key()) {
        Some(ConfigValue::Array(a)) => a,
        _ => return Err(String::from_str(PATHS_SHAPE_ERROR)),
    };
    let mut out: Vec<String> = Vec::new();
    let mut i: usize = 0;
    while i < a.len()
        invariant
            i <= a@.len(),
            path_list(config@) == Some(a@),
            out@.len() == i,
            forall|j: int| 0 <= j < i ==> (#[trigger] a@[j]) is Str && out@[j]@ == str_of(a@[j]),
        decreases a@.len() - i,
    {
        match &a[i] {
            ConfigValue::Str(s) => out.push(s.clone()),
            _ => {
                assert(!(a@[i as int] is Str));
                return Err(String::from_str(PATHS_SHAPE_ERROR));
            },
        }
        i = i + 1;
    }
    assert(texts(out@) =~= strs(a@));
    Ok(out)
}

/// Failures keyed by path, in the order in which each path first failed.
pub type Failures = Seq<(Seq<char>, Seq<char>)>;

/// No path has two entries.
pub open spec fn paths_distinct(f: Failures) -> bool {
    forall|i: int, j: int| 0 <= i < f.len() && 0 <= j < f.len() && i != j ==> f[i].0 != f[j].0
}

/// `f` with `msg` recorded against `path`: in place of an earlier entry for
/// that path, else at the end.
pub open spec fn put(f: Failures, path: Seq<char>, msg: Seq<char>) -> Failures {
    if exists|i: int| 0 <= i < f.len() && f[i].0 == path {
        f.update(choose|i: int| 0 <= i < f.len() && f[i].0 == path, (path, msg))
    } else {
        f.push((path, msg))
    }
}

/// The message for a path that does not lead to a usable directory.
pub open spec fn invalid_path_message(target: Seq<char>) -> Seq<char> {
    "invalid path: `"@ + target + "`"@
}

/// The message for a file that may not be written.
pub open spec fn permission_message(file: Seq<char>) -> Seq<char> {
    "insufficient permissions to modify `"@ + file + "`"@
}

/// The outcome `(written, failures)` after the directory `target` ended in `st`.
pub open spec fn step(
    o: (Seq<Seq<char>>, Failures),
    target: Seq<char>,
    st: TargetStatus,
) -> (Seq<Seq<char>>, Failures) {
    match st {
        TargetStatus::NotADirectory => (o.0, put(o.1, target, invalid_path_message(target))),
        TargetStatus::Written(p) => (o.0.push(p@), o.1),
        TargetStatus::Failed(p, WriteFailure::NotFound) => (o.0, put(o.1, p@, invalid_path_message(target))),
        TargetStatus::Failed(p, WriteFailure::PermissionDenied) => (o.0, put(o.1, p@, permission_message(p@))),
        TargetStatus::Failed(p, WriteFailure::Other(m)) => (o.0, put(o.1, p@, m@)),
    }
}

/// The outcome after each of `targets` ended in the status at its position.
pub open spec fn outcome(targets: Seq<Seq<char>>, sts: Seq<TargetStatus>) -> (Seq<Seq<char>>, Failures)
    decreases targets.len(),
{
    if targets.len() == 0 || sts.len() == 0 {
        (Seq::empty(), Seq::empty())
    } else {
        step(outcome(targets.drop_last(), sts.drop_last()), targets.last(), sts.last())
    }
}

/// The texts of pairs of strings.
pub open spec fn pair_texts(v: Seq<(String, String)>) -> Failures {
    v.map_values(|p: (String, String)| (p.0@, p.1@))
}

/// The files written, and the failures keyed by path.
pub struct ModifiedFilesResult {
    ok: Vec<String>,
    err: Vec<(String, String)>,
}

impl ModifiedFilesResult {
    /// The paths of the files written, in order.
    pub closed spec fn written(&self) -> Seq<Seq<char>> {
        texts(self.ok@)
    }

    /// The failures: path and message.
    pub closed spec fn failures(&self) -> Failures {
        pair_texts(self.err@)
    }

    /// No path has two failures.
    pub open spec fn wf(&self) -> bool {
        paths_distinct(self.failures())
    }

    /// An outcome with nothing in it.
    pub fn new() -> (r: Self)
        ensures
            r.written() == Seq::<Seq<char>>::empty(),
            r.failures() == Seq::<(Seq<char>, Seq<char>)>::empty(),
            r.wf(),
    {
        let r = ModifiedFilesResult { ok: Vec::new(), err: Vec::new() };
        assert(r.written() =~= Seq::<Seq<char>>::empty());
        assert(r.failures() =~= Seq::<(Seq<char>, Seq<char>)>::empty());
        r
    }

    /// The paths of the files written, in order.
    pub fn ok_paths(&self) -> (r: &Vec<String>)
        ensures
            texts(r@) == self.written(),
    {
        &self.ok
    }

    /// The failures: path and message.
    pub fn failed_paths(&self) -> (r: &Vec<(String, String)>)
        ensures
            pair_texts(r@) == self.failures(),
    {
        &self.err
    }

    /// Records `msg` against `path`.
    fn fail(&mut self, path: String, msg: String)
        requires
            old(self).wf(),
        ensures
            final(self).wf(),
            final(self).written() == old(self).written(),
            final(self).failures() == put(old(self).failures(), path@, msg@),
    {
        let ghost f0 = self.failures();
        let ghost p0 = path@;
        let ghost m0 = msg@;
        let mut i: usize = 0;
        while i < self.err.len()
            invariant
                i <= self.err@.len(),
                f0 == self.failures(),
                f0 == old(self).failures(),
                paths_distinct(f0),
                self.written() == old(self).written(),
                p0 == path@,
                m0 == msg@,
                forall|j: int| 0 <= j < i ==> self.err@[j].0@ != path@,
            decreases self.err@.len() - i,
        {
            if self.err[i].0 == path {
                proof {
                    assert(f0[i as int].0 == p0);
                    let k = choose|k: int| 0 <= k < f0.len() && f0[k].0 == p0;
                    assert(k == i);
                }
                let ghost e0 = self.err@;
                self.err.set(i, (path, msg));
                assert(self.err@ == e0.update(i as int, (self.err@[i as int].0, self.err@[i as int].1)));
                assert(self.failures() =~= f0.update(i as int, (p0, m0)));
                assert(exists|k: int| 0 <= k < f0.len() && f0[k].0 == p0);
                assert(put(f0, p0, m0) == f0.update(i as int, (p0, m0)));
                return;
            }
            i = i + 1;
        }
        assert(!exists|k: int| 0 <= k < f0.len() && f0[k].0 == p0) by {
            assert forall|k: int| 0 <= k < f0.len() implies f0[k].0 != p0 by {
                assert(f0[k].0 == self.err@[k].0@);
            }
        }
        self.err.push((path, msg));
        assert(self.failures() =~= f0.push((p0, m0)));
    }

    /// Records what became of the directory `target`.
    pub fn record(&mut self, target: &str, status: &TargetStatus)
        requires
            old(self).wf(),
        ensures
            final(self).wf(),
            (final(self).written(), final(self).failures()) == step(
                (old(self).written(), old(self).failures()),
                target@,
                *status,
            ),
    {
        match status {
            TargetStatus::NotADirectory => {
                let msg = String::from_str("invalid path: `").concat(target).concat("`");
                self.fail(String::from_str(target), msg);
            },
            TargetStatus::Written(p) => {
                self.ok.push(p.clone());
                assert(self.written() =~= old(self).written().push(p@));
            },
            TargetStatus::Failed(p, WriteFailure::NotFound) => {
                let msg = String::from_str("invalid path: `").concat(target).concat("`");
                self.fail(p.clone(), msg);
            },
            TargetStatus::Failed(p, WriteFailure::PermissionDenied) => {
                let msg = String::from_str("insufficient permissions to modify `").concat(p.as_str()).concat("`");
                self.fail(p.clone(), msg);
            },
            TargetStatus::Failed(p, WriteFailure::Other(m)) => {
                self.fail(p.clone(), m.clone());
            },
        }
    }
}

/// A line of a listing: four spaces, then `s`.
pub open spec fn indented(s: Seq<char>) -> Seq<char> {
    "    "@ + s
}

/// Each path, indented.
pub open spec fn listed_paths(w: Seq<Seq<char>>) -> Seq<Seq<char>> {
    w.map_values(|p: Seq<char>| indented(p))
}

/// Each failure message, indented.
pub open spec fn listed_messages(f: Failures) -> Seq<Seq<char>> {
    f.map_values(|e: (Seq<char>, Seq<char>)| indented(e.1))
}

/// The lines that report an outcome: an `ok: [` block with the files
/// written, then an `error: {` block with the failure messages, each block
/// left out where it would be empty.
pub open spec fn report(w: Seq<Seq<char>>, f: Failures) -> Seq<Seq<char>> {
    (if w.len() > 0 {
        seq!["ok: ["@] + listed_paths(w) + seq!["]"@]
    } else {
        Seq::empty()
    }) + (if f.len() > 0 {
        seq!["error: {"@] + listed_messages(f) + seq!["}"@]
    } else {
        Seq::empty()
    })
}

impl ModifiedFilesResult {
    /// The report of this outcome, line by line.
    pub fn report_lines(&self) -> (r: Vec<String>)
        ensures
            texts(r@) == report(self.written(), self.failures()),
    {
        let ghost w = self.written();
        let ghost f = self.failures();
        let mut lines: Vec<String> = Vec::new();
        assert(texts(lines@) =~= Seq::<Seq<char>>::empty());
        if self.ok.len() > 0 {
            push_line(&mut lines, String::from_str("ok: ["));
            let mut i: usize = 0;
            while i < self.ok.len()
                invariant
                    i <= self.ok@.len(),
                    w == self.written(),
                    texts(lines@) == seq!["ok: ["@] + listed_paths(w.subrange(0, i as int)),
                decreases self.ok@.len() - i,
            {
                let line = String::from_str("    ").concat(self.ok[i].as_str());
                assert(line@ == indented(w[i as int]));
                push_line(&mut lines, line);
                assert(listed_paths(w.subrange(0, i + 1)) =~= listed_paths(w.subrange(0, i as int)).push(
                    indented(w[i as int]),
                ));
                i = i + 1;
            }
            push_line(&mut lines, String::from_str("]"));
            assert(w.subrange(0, i as int) =~= w);
        }
        let ghost first = texts(lines@);
        assert(first =~= (if w.len() > 0 {
            seq!["ok: ["@] + listed_paths(w) + seq!["]"@]
        } else {
            Seq::empty()
        }));
        if self.err.len() > 0 {
            push_line(&mut lines, String::from_str("error: {"));
            let mut i: usize = 0;
            while i < self.err.len()
                invariant
                    i <= self.err@.len(),
                    f == self.failures(),
                    texts(lines@) == first + seq!["error: {"@] + listed_messages(f.subrange(0, i as int)),
                decreases self.err@.len() - i,
            {
                let line = String::from_str("    ").concat(self.err[i].1.as_str());
                assert(line@ == indented(f[i as int].1));
                push_line(&mut lines, line);
                assert(listed_messages(f.subrange(0, i + 1)) =~= listed_messages(
                    f.subrange(0, i as int),
                ).push(indented(f[i as int].1)));
                i = i + 1;
            }
            push_line(&mut lines, String::from_str("}"));
            assert(f.subrange(0, i as int) =~= f);
        }
        assert(texts(lines@) =~= report(w, f));
        lines
    }
}

/// Appends `line` to `lines`.
fn push_line(lines: &mut Vec<String>, line: String)
    ensures
        texts(final(lines)@) == texts(old(lines)@).push(line@),
{
    let ghost l = line@;
    lines.push(line);
    assert(texts(lines@) =~= texts(old(lines)@).push(l));
}

/// Gathers what became of each directory of `targets`, whose status stands
/// at the same position of `statuses`.
pub fn collect_outcome(targets: &Vec<String>, statuses: &Vec<TargetStatus>) -> (r: ModifiedFilesResult)
    requires
        targets@.len() == statuses@.len(),
    ensures
        r.wf(),
        (r.written(), r.failures()) == outcome(texts(targets@), statuses@),
{
    let mut r = ModifiedFilesResult::new();
    let mut i: usize = 0;
    while i < targets.len()
        invariant
            i <= targets@.len(),
            targets@.len() == statuses@.len(),
            r.wf(),
            (r.written(), r.failures()) == outcome(
                texts(targets@).subrange(0, i as int),
                statuses@.subrange(0, i as int),
            ),
        decreases targets@.len() - i,
    {
        r.record(targets[i].as_str(), &statuses[i]);
        proof {
            let t = texts(targets@).subrange(0, i + 1);
            let s = statuses@.subrange(0, i + 1);
            assert(t.drop_last() =~= texts(targets@).subrange(0, i as int));
            assert(s.drop_last() =~= statuses@.subrange(0, i as int));
        }
        i = i + 1;
    }
    assert(texts(targets@).subrange(0, i as int) =~= texts(targets@));
    assert(statuses@.subrange(0, i as int) =~= statuses@);
    r
}

/// Where every directory was written, each has its file among the written
/// ones and nothing failed.
pub proof fn lemma_all_written(targets: Seq<Seq<char>>, sts: Seq<TargetStatus>)
    requires
        targets.len() == sts.len(),
        forall|i: int| 0 <= i < sts.len() ==> (#[trigger] sts[i]) is Written,
    ensures
        outcome(targets, sts).0.len() == targets.len(),
        outcome(targets, sts).1.len() == 0,
    decreases targets.len(),
{
    if targets.len() > 0 {
        lemma_all_written(targets.drop_last(), sts.drop_last());
        assert(sts.last() is Written);
    }
}

} // verus!
