//! The ledger of background planner tasks, their cancellation and history,
//! and the plain records kept for audit.

use vstd::prelude::*;

use crate::text::{chars_of, string_of, u64_text};

verus! {

/// The system clock's milliseconds since the Unix epoch, `None` when the
/// clock reads earlier than the epoch (`SystemTime::now`, `duration_since`,
/// `Duration::as_millis`). Nothing is promised of the reading itself.
#[verifier::external_body]
fn system_millis() -> (r: Option<u128>) {
    match std::time::SystemTime::now().duration_since(std::time::UNIX_EPOCH) {
        Ok(elapsed) => Some(elapsed.as_millis()),
        Err(_) => None,
    }
}

/// A clock reading in milliseconds as a `u64`: a reading before the epoch
/// counts as 0, and a reading too large for `u64` is held at `u64::MAX`.
pub fn millis_to_u64(m: Option<u128>) -> (r: u64)
    ensures
        r == match m {
            Some(x) => if x > u64::MAX {
                u64::MAX
            } else {
                x as u64
            },
            None => 0,
        },
{
    match m {
        Some(x) => if x > u64::MAX as u128 {
            u64::MAX
        } else {
            x as u64
        },
        None => 0,
    }
}

/// Milliseconds since the Unix epoch, by the system clock.
pub fn now_ms() -> (r: u64) {
    millis_to_u64(system_millis())
}

/// The id of a new agent session: `session_` and the clock reading.
pub fn new_session_id() -> (r: String)
    ensures
        exists|ms: u64| r@ == "session_"@ + crate::text::nat_text(ms as nat),
{
    let ms = now_ms();
    session_id_at(ms)
}

/// The session id for a clock reading.
pub fn session_id_at(ms: u64) -> (r: String)
    ensures
        r@ == "session_"@ + crate::text::nat_text(ms as nat),
{
    let mut out = chars_of("session_");
    let mut d = u64_text(ms);
    out.append(&mut d);
    string_of(&out)
}

#[derive(Debug, Clone, Copy, PartialEq, Eq, Structural)]
pub enum TaskStatus {
    Running,
    Completed,
    CancelRequested,
    Cancelled,
    Failed,
}

impl Default for TaskStatus {
    fn default() -> (r: TaskStatus)
        ensures
            r == TaskStatus::Running,
    {
        TaskStatus::Running
    }
}

/// Still in flight: running, or asked to cancel and not yet stopped.
pub open spec fn in_flight(s: TaskStatus) -> bool {
    s == TaskStatus::Running || s == TaskStatus::CancelRequested
}

pub open spec fn terminal(s: TaskStatus) -> bool {
    s == TaskStatus::Completed || s == TaskStatus::Cancelled || s == TaskStatus::Failed
}

#[derive(Debug, Clone)]
pub struct TaskRecord {
    pub id: u64,
    pub kind: String,
    pub label: String,
    pub round_number: Option<u32>,
    pub stage: String,
    pub progress_percent: u8,
    pub detail: String,
    pub status: TaskStatus,
    pub started_at_ms: u64,
    pub finished_at_ms: Option<u64>,
}

pub struct TaskRecordV {
    pub id: u64,
    pub kind: Seq<char>,
    pub label: Seq<char>,
    pub round_number: Option<u32>,
    pub stage: Seq<char>,
    pub progress_percent: u8,
    pub detail: Seq<char>,
    pub status: TaskStatus,
    pub started_at_ms: u64,
    pub finished_at_ms: Option<u64>,
}

impl View for TaskRecord {
    type V = TaskRecordV;

    open spec fn view(&self) -> TaskRecordV {
        TaskRecordV {
            id: self.id,
            kind: self.kind@,
            label: self.label@,
            round_number: self.round_number,
            stage: self.stage@,
            progress_percent: self.progress_percent,
            detail: self.detail@,
            status: self.status,
            started_at_ms: self.started_at_ms,
            finished_at_ms: self.finished_at_ms,
        }
    }
}

impl TaskRecord {
    /// A copy with the same view.
    pub fn duplicate(&self) -> (r: TaskRecord)
        ensures
            r@ == self@,
    {
        TaskRecord {
            id: self.id,
            kind: self.kind.clone(),
            label: self.label.clone(),
            round_number: self.round_number,
            stage: self.stage.clone(),
            progress_percent: self.progress_percent,
            detail: self.detail.clone(),
            status: self.status,
            started_at_ms: self.started_at_ms,
            finished_at_ms: self.finished_at_ms,
        }
    }
}

pub open spec fn records_view(v: Seq<TaskRecord>) -> Seq<TaskRecordV> {
    v.map_values(|r: TaskRecord| r@)
}

/// Index of the first record that is no longer in flight.
pub open spec fn first_settled(s: Seq<TaskRecordV>) -> Option<int>
    decreases s.len(),
{
    if s.len() == 0 {
        None
    } else {
        match first_settled(s.drop_last()) {
            Some(i) => Some(i),
            None => if !in_flight(s.last().status) {
                Some(s.len() - 1)
            } else {
                None
            },
        }
    }
}

/// Drops up to `k` records that are no longer in flight, oldest first.
pub open spec fn drop_settled(s: Seq<TaskRecordV>, k: nat) -> Seq<TaskRecordV>
    decreases k,
{
    if k == 0 {
        s
    } else {
        match first_settled(s) {
            Some(i) => drop_settled(s.remove(i), (k - 1) as nat),
            None => s,
        }
    }
}

/// The history trimmed to `limit` (at least 50) records where possible,
/// never dropping a task in flight.
pub open spec fn trim_v(s: Seq<TaskRecordV>, limit: usize) -> Seq<TaskRecordV> {
    let lim = if limit > 50 {
        limit as int
    } else {
        50
    };
    if s.len() <= lim {
        s
    } else {
        drop_settled(s, (s.len() - lim) as nat)
    }
}

pub proof fn lemma_first_settled(s: Seq<TaskRecordV>)
    ensures
        match first_settled(s) {
            Some(i) => 0 <= i < s.len() && !in_flight(s[i].status) && forall|k: int|
                0 <= k < i ==> in_flight(#[trigger] s[k].status),
            None => forall|k: int| 0 <= k < s.len() ==> in_flight(#[trigger] s[k].status),
        },
    decreases s.len(),
{
    if s.len() > 0 {
        lemma_first_settled(s.drop_last());
        assert forall|k: int| 0 <= k < s.len() - 1 implies s.drop_last()[k] == s[k] by {}
    }
}

/// The records in flight, in order.
pub open spec fn in_flight_of(s: Seq<TaskRecordV>) -> Seq<TaskRecordV>
    decreases s.len(),
{
    if s.len() == 0 {
        Seq::empty()
    } else if in_flight(s.last().status) {
        in_flight_of(s.drop_last()).push(s.last())
    } else {
        in_flight_of(s.drop_last())
    }
}

proof fn lemma_in_flight_remove_settled(s: Seq<TaskRecordV>, i: int)
    requires
        0 <= i < s.len(),
        !in_flight(s[i].status),
    ensures
        in_flight_of(s.remove(i)) == in_flight_of(s),
    decreases s.len(),
{
    if i == s.len() - 1 {
        assert(s.remove(i) =~= s.drop_last());
    } else {
        lemma_in_flight_remove_settled(s.drop_last(), i);
        assert(s.remove(i).drop_last() =~= s.drop_last().remove(i));
        assert(s.remove(i).last() == s.last());
    }
}

/// Trimming the task history never drops a task that is still in flight.
pub proof fn lemma_trim_keeps_in_flight(s: Seq<TaskRecordV>, k: nat)
    ensures
        in_flight_of(drop_settled(s, k)) == in_flight_of(s),
    decreases k,
{
    if k > 0 {
        lemma_first_settled(s);
        match first_settled(s) {
            Some(i) => {
                lemma_in_flight_remove_settled(s, i);
                lemma_trim_keeps_in_flight(s.remove(i), (k - 1) as nat);
            },
            None => {},
        }
    }
}

/// Trimming keeps the newest record when it is still in flight.
proof fn lemma_drop_settled_keeps_last(s: Seq<TaskRecordV>, k: nat)
    requires
        s.len() > 0,
        in_flight(s.last().status),
    ensures
        drop_settled(s, k).len() > 0,
        drop_settled(s, k).last() == s.last(),
    decreases k,
{
    if k > 0 {
        lemma_first_settled(s);
        match first_settled(s) {
            Some(i) => {
                assert(i != s.len() - 1);
                let t = s.remove(i);
                assert(t.last() == s.last());
                lemma_drop_settled_keeps_last(t, (k - 1) as nat);
            },
            None => {},
        }
    }
}

proof fn lemma_trim_keeps_last(s: Seq<TaskRecordV>, limit: usize)
    requires
        s.len() > 0,
        in_flight(s.last().status),
    ensures
        trim_v(s, limit).len() > 0,
        trim_v(s, limit).last() == s.last(),
{
    let lim = if limit > 50 {
        limit as int
    } else {
        50
    };
    if s.len() > lim {
        lemma_drop_settled_keeps_last(s, (s.len() - lim) as nat);
    }
}

/// Trimming the history to `limit` never drops a task in flight: the tasks
/// in flight stay, in their order, and every record kept was in the
/// history before.
pub proof fn lemma_trim_never_drops_in_flight(s: Seq<TaskRecordV>, limit: usize)
    ensures
        in_flight_of(trim_v(s, limit)) == in_flight_of(s),
        forall|j: int| 0 <= j < trim_v(s, limit).len() ==> occurs(s, #[trigger] trim_v(s, limit)[j]),
{
    lemma_trim_keeps(s, limit);
    let lim = if limit > 50 {
        limit as int
    } else {
        50
    };
    if s.len() > lim {
        lemma_trim_keeps_in_flight(s, (s.len() - lim) as nat);
    }
}

proof fn lemma_trim_keeps_finished(s: Seq<TaskRecordV>, limit: usize, id: u64)
    requires
        forall|j: int| 0 <= j < s.len() && s[j].id == id ==> !in_flight(#[trigger] s[j].status),
    ensures
        forall|j: int|
            0 <= j < trim_v(s, limit).len() && trim_v(s, limit)[j].id == id ==> terminal(
                #[trigger] trim_v(s, limit)[j].status,
            ),
{
    lemma_trim_keeps(s, limit);
    let t = trim_v(s, limit);
    assert forall|j: int| 0 <= j < t.len() && t[j].id == id implies terminal(#[trigger] t[j].status) by {
        assert(occurs(s, t[j]));
        let m = choose|m: int| 0 <= m < s.len() && s[m] == t[j];
        assert(s[m].id == id);
        assert(!in_flight(s[m].status));
    }
}

/// The record `start` opens for task `id`.
pub open spec fn started_record_v(
    rec: TaskRecordV,
    id: u64,
    kind: Seq<char>,
    label: Seq<char>,
    round_number: Option<u32>,
) -> bool {
    &&& rec.id == id
    &&& rec.kind == kind
    &&& rec.label == label
    &&& rec.round_number == round_number
    &&& rec.stage == "准备"@
    &&& rec.progress_percent == 0
    &&& rec.detail == Seq::<char>::empty()
    &&& rec.status == TaskStatus::Running
    &&& rec.finished_at_ms is None
}

proof fn lemma_dropped_flag_gone(old: Seq<(u64, bool)>, new: Seq<(u64, bool)>, id: u64)
    requires
        increasing_flags(old),
        flag_dropped(old, new, id),
    ensures
        forall|k: int| 0 <= k < new.len() ==> new[k].0 != id,
{
    if exists|k: int|
        0 <= k < old.len() && old[k].0 == id && (forall|m: int| 0 <= m < k ==> old[m].0 != id) && new
            == old.remove(k) {
        let k = choose|k: int|
            0 <= k < old.len() && old[k].0 == id && (forall|m: int| 0 <= m < k ==> old[m].0 != id) && new
                == old.remove(k);
        assert forall|q: int| 0 <= q < new.len() implies new[q].0 != id by {
            if q < k {
                assert(new[q] == old[q]);
            } else {
                assert(new[q] == old[q + 1]);
                assert(old[k].0 < old[q + 1].0);
            }
        }
    }
}

#[derive(Debug)]
pub struct TaskManager {
    records: Vec<TaskRecord>,
    /// Live tasks and whether each was asked to cancel.
    cancel_flags: Vec<(u64, bool)>,
    /// Finished tasks and whether each had been asked to cancel: a handle
    /// keeps its flag after its task finished.
    retired_flags: Vec<(u64, bool)>,
    history_limit: usize,
    next_id: u64,
}

/// A started task, known by its id.
#[derive(Debug, Clone, Copy)]
pub struct TaskHandle {
    id: u64,
}

/// The stage label written when a task finishes with `status`.
pub open spec fn finish_stage(status: TaskStatus) -> Seq<char> {
    match status {
        TaskStatus::Completed => "完成"@,
        TaskStatus::Cancelled => "已取消"@,
        TaskStatus::Failed => "失败"@,
        TaskStatus::CancelRequested => "正在取消"@,
        TaskStatus::Running => "运行中"@,
    }
}

/// `mid` is `old` with the first record of `id`, if any, closed with
/// `status` and `detail`: progress 100, the status's stage, a finish time.
pub open spec fn finished_v(old: Seq<TaskRecordV>, mid: Seq<TaskRecordV>, id: u64, status: TaskStatus, detail: Seq<char>) -> bool {
    match record_index(old, id) {
        Some(i) => {
            &&& mid.len() == old.len()
            &&& mid[i].status == status
            &&& mid[i].progress_percent == 100
            &&& mid[i].stage == finish_stage(status)
            &&& mid[i].detail == detail
            &&& mid[i].finished_at_ms is Some
            &&& mid[i].id == old[i].id
            &&& mid[i].kind == old[i].kind
            &&& mid[i].label == old[i].label
            &&& mid[i].round_number == old[i].round_number
            &&& mid[i].started_at_ms == old[i].started_at_ms
            &&& forall|j: int| 0 <= j < old.len() && j != i ==> mid[j] == old[j]
        },
        None => mid == old,
    }
}

/// `new` is `old` without the first cancel flag of `id`, if it has one.
pub open spec fn flag_dropped(old: Seq<(u64, bool)>, new: Seq<(u64, bool)>, id: u64) -> bool {
    ||| (forall|m: int| 0 <= m < old.len() ==> old[m].0 != id) && new == old
    ||| exists|k: int|
        0 <= k < old.len() && old[k].0 == id && (forall|m: int| 0 <= m < k ==> old[m].0 != id) && new
            == old.remove(k)
}

/// Index of the first cancel flag of task `id`.
pub open spec fn flag_pos(s: Seq<(u64, bool)>, id: u64) -> Option<int> {
    if exists|k: int| 0 <= k < s.len() && s[k].0 == id {
        Some(choose|k: int| 0 <= k < s.len() && s[k].0 == id && forall|m: int| 0 <= m < k ==> s[m].0 != id)
    } else {
        None
    }
}

/// One step of cancelling every running task: task `id`, when it is live,
/// gets its flag set and, unless it has finished, its record turns to
/// CancelRequested with stage 正在取消, progress 100 and `reason`.
pub open spec fn cancel_step(
    recs: Seq<TaskRecordV>,
    flags: Seq<(u64, bool)>,
    id: u64,
    reason: Seq<char>,
) -> (Seq<TaskRecordV>, Seq<(u64, bool)>) {
    match flag_pos(flags, id) {
        Some(k) => (
            match record_index(recs, id) {
                Some(i) => if terminal(recs[i].status) {
                    recs
                } else {
                    recs.update(
                        i,
                        TaskRecordV {
                            status: TaskStatus::CancelRequested,
                            stage: "正在取消"@,
                            progress_percent: 100,
                            detail: reason,
                            ..recs[i]
                        },
                    )
                },
                None => recs,
            },
            flags.update(k, (id, true)),
        ),
        None => (recs, flags),
    }
}

/// The ids of the running records, in order.
pub open spec fn running_ids(s: Seq<TaskRecordV>) -> Seq<u64>
    decreases s.len(),
{
    if s.len() == 0 {
        Seq::empty()
    } else if s.last().status == TaskStatus::Running {
        running_ids(s.drop_last()).push(s.last().id)
    } else {
        running_ids(s.drop_last())
    }
}

/// `cancel_step` applied for each of `ids` in turn.
pub open spec fn cancel_all_v(
    recs: Seq<TaskRecordV>,
    flags: Seq<(u64, bool)>,
    ids: Seq<u64>,
    reason: Seq<char>,
) -> (Seq<TaskRecordV>, Seq<(u64, bool)>)
    decreases ids.len(),
{
    if ids.len() == 0 {
        (recs, flags)
    } else {
        let p = cancel_all_v(recs, flags, ids.drop_last(), reason);
        cancel_step(p.0, p.1, ids.last(), reason)
    }
}

proof fn lemma_record_index_same_ids(s: Seq<TaskRecordV>, t: Seq<TaskRecordV>, id: u64)
    requires
        s.len() == t.len(),
        forall|j: int| 0 <= j < s.len() ==> s[j].id == t[j].id,
    ensures
        record_index(s, id) == record_index(t, id),
{
    if exists|i: int| 0 <= i < s.len() && s[i].id == id {
        let w = choose|i: int| 0 <= i < s.len() && s[i].id == id;
        lemma_first_index_exists(s, id, w);
        let a = choose|i: int| 0 <= i < s.len() && s[i].id == id && forall|k: int| 0 <= k < i ==> s[k].id != id;
        assert(t[a].id == id);
        assert(forall|k: int| 0 <= k < a ==> t[k].id != id) by {
            assert forall|k: int| 0 <= k < a implies t[k].id != id by {
                assert(s[k].id != id);
            }
        }
        let b = choose|i: int| 0 <= i < t.len() && t[i].id == id && forall|k: int| 0 <= k < i ==> t[k].id != id;
        assert(s[b].id == id);
        if a < b {
            assert(t[a].id != id);
        } else if b < a {
            assert(s[b].id != id);
        }
    } else {
        assert(!exists|i: int| 0 <= i < t.len() && t[i].id == id) by {
            assert forall|i: int| 0 <= i < t.len() implies t[i].id != id by {
                assert(s[i].id != id);
            }
        }
    }
}

/// What a cancel followed by a note does to the records, from the two calls'
/// contracts.
proof fn lemma_cancel_then_note(
    r0: Seq<TaskRecordV>,
    r1: Seq<TaskRecordV>,
    r2: Seq<TaskRecordV>,
    f0: Seq<(u64, bool)>,
    id: u64,
    reason: Seq<char>,
)
    requires
        flag_pos(f0, id) is Some,
        record_index(r0, id) == record_index(r1, id),
        match record_index(r0, id) {
            Some(i) => r1 == if r0[i].status == TaskStatus::Running {
                r0.update(
                    i,
                    TaskRecordV {
                        status: TaskStatus::CancelRequested,
                        stage: "正在取消"@,
                        detail: "已收到用户取消请求，正在终止当前 API 请求"@,
                        ..r0[i]
                    },
                )
            } else {
                r0
            },
            None => r1 == r0,
        },
        match record_index(r1, id) {
            Some(i) => if terminal(r1[i].status) {
                r2 == r1
            } else {
                r2 == r1.update(
                    i,
                    TaskRecordV {
                        stage: "正在取消"@,
                        progress_percent: if 100u8 < 100 {
                            100u8
                        } else {
                            100
                        },
                        detail: reason,
                        ..r1[i]
                    },
                )
            },
            None => r2 == r1,
        },
    ensures
        r2 == cancel_step(r0, f0, id, reason).0,
{
    lemma_record_index(r0, id);
    match record_index(r0, id) {
        Some(i) => {
            if !terminal(r0[i].status) {
                assert(r2 =~= cancel_step(r0, f0, id, reason).0);
            }
        },
        None => {},
    }
}

proof fn lemma_record_index(s: Seq<TaskRecordV>, id: u64)
    ensures
        match record_index(s, id) {
            Some(i) => 0 <= i < s.len() && s[i].id == id && forall|k: int| 0 <= k < i ==> s[k].id != id,
            None => forall|i: int| 0 <= i < s.len() ==> s[i].id != id,
        },
{
    if exists|i: int| 0 <= i < s.len() && s[i].id == id {
        let w = choose|i: int| 0 <= i < s.len() && s[i].id == id;
        lemma_first_index_exists(s, id, w);
    }
}

proof fn lemma_first_index_exists(s: Seq<TaskRecordV>, id: u64, j: int)
    requires
        0 <= j < s.len(),
        s[j].id == id,
    ensures
        exists|i: int| 0 <= i < s.len() && s[i].id == id && forall|k: int| 0 <= k < i ==> s[k].id != id,
    decreases j,
{
    if exists|k: int| 0 <= k < j && s[k].id == id {
        let k = choose|k: int| 0 <= k < j && s[k].id == id;
        lemma_first_index_exists(s, id, k);
    } else {
        assert(forall|k: int| 0 <= k < j ==> s[k].id != id);
    }
}

/// Index of the first record with id `id`.
pub open spec fn record_index(s: Seq<TaskRecordV>, id: u64) -> Option<int> {
    if exists|i: int| 0 <= i < s.len() && s[i].id == id {
        Some(choose|i: int| 0 <= i < s.len() && s[i].id == id && forall|k: int| 0 <= k < i ==> s[k].id != id)
    } else {
        None
    }
}

fn find_record(v: &Vec<TaskRecord>, id: u64) -> (r: Option<usize>)
    ensures
        match r {
            Some(i) => record_index(records_view(v@), id) == Some(i as int) && i < v@.len(),
            None => record_index(records_view(v@), id) is None,
        },
{
    let ghost s = records_view(v@);
    let mut i: usize = 0;
    while i < v.len()
        invariant
            i <= v@.len(),
            s == records_view(v@),
            forall|k: int| 0 <= k < i ==> s[k].id != id,
        decreases v@.len() - i,
    {
        if v[i].id == id {
            proof {
                assert(s[i as int].id == id);
                let w = choose|w: int| 0 <= w < s.len() && s[w].id == id && forall|k: int| 0 <= k < w ==> s[k].id != id;
                if w < i {
                } else if w > i {
                    assert(s[i as int].id == id);
                }
            }
            return Some(i);
        }
        i += 1;
    }
    None
}

/// Record ids strictly increase along the history.
pub open spec fn increasing_ids(s: Seq<TaskRecordV>) -> bool {
    forall|i: int, j: int| 0 <= i < j < s.len() ==> s[i].id < s[j].id
}

/// Flag ids strictly increase along the list.
pub open spec fn increasing_flags(f: Seq<(u64, bool)>) -> bool {
    forall|k: int, l: int| 0 <= k < l < f.len() ==> f[k].0 < f[l].0
}

/// The record in `s` is `rec` once a cancel was asked with `reason`.
pub open spec fn cancel_requested_v(rec: TaskRecordV, reason: Seq<char>) -> TaskRecordV {
    TaskRecordV {
        status: TaskStatus::CancelRequested,
        stage: "正在取消"@,
        progress_percent: 100,
        detail: reason,
        ..rec
    }
}

/// `x` is one of the records of `s`.
pub open spec fn occurs(s: Seq<TaskRecordV>, x: TaskRecordV) -> bool {
    exists|m: int| 0 <= m < s.len() && s[m] == x
}

proof fn lemma_drop_settled_keeps(s: Seq<TaskRecordV>, k: nat)
    ensures
        forall|j: int| 0 <= j < drop_settled(s, k).len() ==> occurs(s, #[trigger] drop_settled(s, k)[j]),
        increasing_ids(s) ==> increasing_ids(drop_settled(s, k)),
    decreases k,
{
    if k > 0 {
        lemma_first_settled(s);
        match first_settled(s) {
            Some(i) => {
                let t = s.remove(i);
                lemma_drop_settled_keeps(t, (k - 1) as nat);
                let r = drop_settled(t, (k - 1) as nat);
                assert(drop_settled(s, k) == r);
                assert forall|j: int| 0 <= j < r.len() implies occurs(s, #[trigger] r[j]) by {
                    assert(occurs(t, r[j]));
                    let m = choose|m: int| 0 <= m < t.len() && t[m] == r[j];
                    if m < i {
                        assert(t[m] == s[m]);
                    } else {
                        assert(t[m] == s[m + 1]);
                    }
                }
                if increasing_ids(s) {
                    assert forall|a: int, b: int| 0 <= a < b < t.len() implies t[a].id < t[b].id by {
                        let a2 = if a < i { a } else { a + 1 };
                        let b2 = if b < i { b } else { b + 1 };
                        assert(t[a] == s[a2] && t[b] == s[b2]);
                    }
                }
            },
            None => {
                assert forall|j: int| 0 <= j < s.len() implies occurs(s, #[trigger] s[j]) by {}
            },
        }
    } else {
        assert forall|j: int| 0 <= j < s.len() implies occurs(s, #[trigger] s[j]) by {}
    }
}

proof fn lemma_trim_keeps(s: Seq<TaskRecordV>, limit: usize)
    ensures
        forall|j: int| 0 <= j < trim_v(s, limit).len() ==> occurs(s, #[trigger] trim_v(s, limit)[j]),
        increasing_ids(s) ==> increasing_ids(trim_v(s, limit)),
{
    let lim = if limit > 50 {
        limit as int
    } else {
        50
    };
    if s.len() > lim {
        lemma_drop_settled_keeps(s, (s.len() - lim) as nat);
        let d = drop_settled(s, (s.len() - lim) as nat);
        assert(trim_v(s, limit) == d);
    } else {
        assert(trim_v(s, limit) == s);
        assert forall|j: int| 0 <= j < s.len() implies occurs(s, #[trigger] s[j]) by {}
    }
}

/// In increasing ids, the record of `s[i]`'s id is `s[i]`.
proof fn lemma_unique_index(s: Seq<TaskRecordV>, i: int)
    requires
        increasing_ids(s),
        0 <= i < s.len(),
    ensures
        record_index(s, s[i].id) == Some(i),
{
    lemma_record_index(s, s[i].id);
    let w = record_index(s, s[i].id)->0;
    if w < i {
        assert(s[w].id < s[i].id);
    } else if w > i {
        assert(s[i].id < s[w].id);
    }
}

proof fn lemma_unique_flag(f: Seq<(u64, bool)>, k: int)
    requires
        increasing_flags(f),
        0 <= k < f.len(),
    ensures
        flag_pos(f, f[k].0) == Some(k),
{
    let id = f[k].0;
    let w = choose|w: int| 0 <= w < f.len() && f[w].0 == id && forall|m: int| 0 <= m < w ==> f[m].0 != id;
    if w < k {
        assert(f[w].0 < f[k].0);
    } else if w > k {
        assert(f[k].0 < f[w].0);
    }
}

fn first_pos(v: &Vec<(u64, bool)>, id: u64) -> (r: Option<usize>)
    ensures
        match r {
            Some(k) => k < v@.len() && flag_pos(v@, id) == Some(k as int),
            None => flag_pos(v@, id) is None,
        },
{
    let mut k: usize = 0;
    while k < v.len()
        invariant
            k <= v@.len(),
            forall|m: int| 0 <= m < k ==> v@[m].0 != id,
        decreases v@.len() - k,
    {
        if v[k].0 == id {
            proof {
                let f = v@;
                let m = k as int;
                let w = choose|w: int| 0 <= w < f.len() && f[w].0 == id && forall|j: int| 0 <= j < w ==> f[j].0 != id;
                if w < m {
                    assert(f[w].0 == id);
                } else if w > m {
                    assert(f[m].0 == id);
                }
            }
            return Some(k);
        }
        k += 1;
    }
    None
}

impl TaskManager {
    pub closed spec fn records_v(&self) -> Seq<TaskRecordV> {
        records_view(self.records@)
    }

    pub closed spec fn limit_v(&self) -> usize {
        self.history_limit
    }

    /// Ids of the live tasks with their cancel flags.
    pub closed spec fn flags_v(&self) -> Seq<(u64, bool)> {
        self.cancel_flags@
    }

    pub closed spec fn next_id_v(&self) -> u64 {
        self.next_id
    }

    /// Finished tasks with the cancel flags their handles keep.
    pub closed spec fn retired_v(&self) -> Seq<(u64, bool)> {
        self.retired_flags@
    }

    /// The ledger's invariant: ids are issued in increasing order and not
    /// beyond the last issued one, and every task in flight holds a live
    /// cancel flag.
    #[verifier::opaque]
    pub closed spec fn wf(&self) -> bool {
        let r = self.records_v();
        let f = self.cancel_flags@;
        &&& forall|i: int| 0 <= i < r.len() ==> 1 <= #[trigger] r[i].id <= self.next_id
        &&& increasing_ids(r)
        &&& forall|k: int| 0 <= k < f.len() ==> 1 <= #[trigger] f[k].0 <= self.next_id
        &&& increasing_flags(f)
        &&& forall|i: int|
            0 <= i < r.len() && in_flight(#[trigger] r[i].status) ==> flag_pos(f, r[i].id) is Some
    }

    /// Task `id` is closed: no live cancel flag is left for it and every
    /// record of it has finished.
    pub open spec fn closed_v(&self, id: u64) -> bool {
        &&& forall|k: int| 0 <= k < self.flags_v().len() ==> self.flags_v()[k].0 != id
        &&& forall|j: int|
            0 <= j < self.records_v().len() && self.records_v()[j].id == id ==> terminal(
                #[trigger] self.records_v()[j].status,
            )
    }

    /// Once a task is closed, asking it to cancel answers `false` (the flag
    /// `cancel` looks for is gone) and reporting progress on it leaves its
    /// record as it is (the record `progress` would change has finished).
    pub proof fn lemma_closed_task_is_inert(m: &TaskManager, id: u64)
        requires
            m.closed_v(id),
        ensures
            !(exists|k: int| 0 <= k < m.flags_v().len() && m.flags_v()[k].0 == id),
            flag_pos(m.flags_v(), id) is None,
            match record_index(m.records_v(), id) {
                Some(i) => terminal(m.records_v()[i].status),
                None => true,
            },
    {
        lemma_record_index(m.records_v(), id);
    }

    /// A task in flight has a live cancel flag, so asking it to cancel
    /// answers `true`.
    pub proof fn lemma_in_flight_task_is_live(m: &TaskManager, id: u64, j: int)
        requires
            m.wf(),
            0 <= j < m.records_v().len(),
            m.records_v()[j].id == id,
            in_flight(m.records_v()[j].status),
        ensures
            exists|k: int| 0 <= k < m.flags_v().len() && m.flags_v()[k].0 == id,
            flag_pos(m.flags_v(), id) is Some,
    {
        reveal(TaskManager::wf);
        assert(in_flight(m.records_v()[j].status));
        assert(flag_pos(m.cancel_flags@, m.records_v()[j].id) is Some);
    }

    /// Whether the handle of task `id` reads as cancelled: its live flag, or
    /// the flag it kept when the task finished.
    pub open spec fn handle_cancelled_v(&self, id: u64) -> bool {
        match flag_pos(self.flags_v(), id) {
            Some(k) => self.flags_v()[k].1,
            None => match flag_pos(self.retired_v(), id) {
                Some(k) => self.retired_v()[k].1,
                None => false,
            },
        }
    }

    /// A ledger with no task that keeps at least `history_limit`, and at
    /// least 50, records.
    pub fn new(history_limit: usize) -> (r: TaskManager)
        ensures
            r.records_v().len() == 0,
            r.flags_v().len() == 0,
            r.limit_v() == (if history_limit > 50 {
                history_limit
            } else {
                50
            }),
            r.next_id_v() == 0,
            r.retired_v().len() == 0,
            r.wf(),
    {
        proof {
            reveal(TaskManager::wf);
        }
        TaskManager {
            records: Vec::new(),
            cancel_flags: Vec::new(),
            retired_flags: Vec::new(),
            history_limit: if history_limit > 50 {
                history_limit
            } else {
                50
            },
            next_id: 0,
        }
    }

    fn trim_tasks(&mut self)
        ensures
            final(self).records_v() == trim_v(old(self).records_v(), old(self).limit_v()),
            final(self).flags_v() == old(self).flags_v(),
            final(self).retired_v() == old(self).retired_v(),
            final(self).limit_v() == old(self).limit_v(),
            final(self).next_id_v() == old(self).next_id_v(),
    {
        let limit = if self.history_limit > 50 {
            self.history_limit
        } else {
            50
        };
        if self.records.len() <= limit {
            return;
        }
        let overflow = self.records.len() - limit;
        let ghost s0 = records_view(self.records@);
        let mut remove: usize = 0;
        while remove < overflow
            invariant
                remove <= overflow,
                limit == (if old(self).history_limit > 50 {
                    old(self).history_limit
                } else {
                    50
                }),
                s0 == old(self).records_v(),
                overflow == s0.len() - limit,
                drop_settled(records_view(self.records@), (overflow - remove) as nat) == drop_settled(s0, overflow as nat),
                self.cancel_flags == old(self).cancel_flags,
                self.retired_flags == old(self).retired_flags,
                self.history_limit == old(self).history_limit,
                self.next_id == old(self).next_id,
            decreases overflow - remove,
        {
            let ghost cur = records_view(self.records@);
            proof {
                lemma_first_settled(cur);
            }
            let mut idx: usize = 0;
            while idx < self.records.len() && (self.records[idx].status == TaskStatus::Running
                || self.records[idx].status == TaskStatus::CancelRequested)
                invariant
                    idx <= self.records@.len(),
                    cur == records_view(self.records@),
                    forall|k: int| 0 <= k < idx ==> in_flight(#[trigger] cur[k].status),
                decreases self.records@.len() - idx,
            {
                idx += 1;
            }
            if idx == self.records.len() {
                proof {
                    assert(first_settled(cur) is None) by {
                        if first_settled(cur) is Some {
                            let i = first_settled(cur)->0;
                            assert(in_flight(cur[i].status));
                        }
                    }
                }
                return;
            }
            proof {
                assert(first_settled(cur) == Some(idx as int)) by {
                    let i = first_settled(cur);
                    if i is Some {
                        if i->0 < idx as int {
                            assert(in_flight(cur[i->0].status));
                        } else if i->0 > idx as int {
                            assert(!in_flight(cur[idx as int].status));
                        }
                    } else {
                        assert(in_flight(cur[idx as int].status));
                    }
                }
            }
            self.records.remove(idx);
            assert(records_view(self.records@) =~= cur.remove(idx as int));
            remove += 1;
        }
    }

    proof fn lemma_closed_after_trim(b: &TaskManager, c: &TaskManager, id: u64)
        requires
            c.records_v() == trim_v(b.records_v(), b.limit_v()),
            c.flags_v() == b.flags_v(),
            forall|k: int| 0 <= k < b.flags_v().len() ==> b.flags_v()[k].0 != id,
            forall|j: int|
                0 <= j < b.records_v().len() && b.records_v()[j].id == id ==> !in_flight(
                    #[trigger] b.records_v()[j].status,
                ),
        ensures
            c.closed_v(id),
    {
        lemma_trim_keeps_finished(b.records_v(), b.limit_v(), id);
    }

    proof fn lemma_wf_increasing(m: &TaskManager)
        requires
            m.wf(),
        ensures
            increasing_flags(m.flags_v()),
            increasing_ids(m.records_v()),
    {
        reveal(TaskManager::wf);
    }

    proof fn lemma_trimmed_wf(a: &TaskManager, b: &TaskManager)
        requires
            a.wf(),
            b.records_v() == trim_v(a.records_v(), a.limit_v()),
            b.cancel_flags@ == a.cancel_flags@,
            b.next_id == a.next_id,
        ensures
            b.wf(),
    {
        reveal(TaskManager::wf);
        lemma_trim_keeps(a.records_v(), a.limit_v());
        let r = b.records_v();
        assert forall|i: int| 0 <= i < r.len() implies 1 <= #[trigger] r[i].id <= b.next_id && (in_flight(r[i].status)
            ==> flag_pos(b.cancel_flags@, r[i].id) is Some) by {
            assert(occurs(a.records_v(), r[i]));
            let m = choose|m: int| 0 <= m < a.records_v().len() && a.records_v()[m] == r[i];
            assert(a.records_v()[m] == r[i]);
        }
    }

    proof fn lemma_same_shape_wf(a: &TaskManager, b: &TaskManager)
        requires
            a.wf(),
            b.records_v().len() == a.records_v().len(),
            forall|j: int|
                0 <= j < a.records_v().len() ==> (#[trigger] b.records_v()[j]).id == a.records_v()[j].id && (in_flight(
                    b.records_v()[j].status,
                ) ==> in_flight(a.records_v()[j].status)),
            b.cancel_flags@.len() == a.cancel_flags@.len(),
            forall|k: int| 0 <= k < a.cancel_flags@.len() ==> (#[trigger] b.cancel_flags@[k]).0 == a.cancel_flags@[k].0,
            b.next_id == a.next_id,
        ensures
            b.wf(),
    {
        reveal(TaskManager::wf);
        let r = b.records_v();
        let f = b.cancel_flags@;
        let ra = a.records_v();
        let fa = a.cancel_flags@;
        assert forall|i: int| 0 <= i < r.len() implies 1 <= #[trigger] r[i].id <= b.next_id by {
            assert(r[i].id == ra[i].id);
        }
        assert forall|i: int, j: int| 0 <= i < j < r.len() implies r[i].id < r[j].id by {
            assert(r[i].id == ra[i].id && r[j].id == ra[j].id);
        }
        assert forall|k: int| 0 <= k < f.len() implies 1 <= #[trigger] f[k].0 <= b.next_id by {
            assert(f[k].0 == fa[k].0);
        }
        assert forall|k: int, l: int| 0 <= k < l < f.len() implies f[k].0 < f[l].0 by {
            assert(f[k].0 == fa[k].0 && f[l].0 == fa[l].0);
        }
        assert forall|i: int| 0 <= i < r.len() && in_flight(#[trigger] r[i].status) implies flag_pos(f, r[i].id) is Some by {
            assert(r[i].id == ra[i].id);
            assert(in_flight(ra[i].status));
            let q = choose|q: int| 0 <= q < fa.len() && fa[q].0 == ra[i].id;
            assert(f[q].0 == fa[q].0);
        }
    }

    /// Opens a task record and its cancel flag.
#[verifier::spinoff_prover]
    pub fn start(&mut self, kind: String, label: String, round_number: Option<u32>) -> (r: TaskHandle)
        requires
            old(self).wf(),
            old(self).next_id_v() < u64::MAX,
        ensures
            final(self).wf(),
            final(self).retired_v() == old(self).retired_v(),
            r.id_v() == old(self).next_id_v() + 1,
            final(self).next_id_v() == r.id_v(),
            forall|i: int| 0 <= i < old(self).records_v().len() ==> #[trigger] old(self).records_v()[i].id < r.id_v(),
            forall|k: int| 0 <= k < old(self).flags_v().len() ==> #[trigger] old(self).flags_v()[k].0 < r.id_v(),
            !final(self).handle_cancelled_v(r.id_v()),
            r.id_v() == (if old(self).next_id_v() == u64::MAX {
                u64::MAX
            } else {
                (old(self).next_id_v() + 1) as u64
            }),
            final(self).next_id_v() == vstd::wrapping::u64_specs::wrapping_add(old(self).next_id_v(), 1),
            final(self).flags_v() == old(self).flags_v().push((r.id_v(), false)),
            final(self).limit_v() == old(self).limit_v(),
            final(self).records_v().len() > 0,
            started_record_v(final(self).records_v().last(), r.id_v(), kind@, label@, round_number),
            forall|k: int|
                0 <= k < final(self).records_v().len() - 1 ==> #[trigger] final(self).records_v()[k].id
                    != r.id_v(),
            exists|started: u64|
                final(self).records_v() == trim_v(
                    old(self).records_v().push(
                        TaskRecordV {
                            id: r.id_v(),
                            kind: kind@,
                            label: label@,
                            round_number,
                            stage: "准备"@,
                            progress_percent: 0,
                            detail: Seq::empty(),
                            status: TaskStatus::Running,
                            started_at_ms: started,
                            finished_at_ms: None,
                        },
                    ),
                    old(self).limit_v(),
                ),
    {
        let id = self.next_id.saturating_add(1);
        self.next_id = self.next_id.wrapping_add(1);
        let started = now_ms();
        let record = TaskRecord {
            id,
            kind,
            label,
            round_number,
            stage: string_of(&chars_of("准备")),
            progress_percent: 0,
            detail: String::new(),
            status: TaskStatus::Running,
            started_at_ms: started,
            finished_at_ms: None,
        };
        let ghost before = records_view(self.records@);
        let ghost f0 = self.cancel_flags@;
        self.records.push(record);
        assert(records_view(self.records@) =~= before.push(record@));
        self.cancel_flags.push((id, false));
        proof {
            reveal(TaskManager::wf);
            let r = self.records_v();
            let f = self.cancel_flags@;
            assert forall|i: int| 0 <= i < r.len() && in_flight(#[trigger] r[i].status) implies flag_pos(f, r[i].id) is Some by {
                if i < r.len() - 1 {
                    assert(r[i] == before[i]);
                    let k = choose|k: int| 0 <= k < f0.len() && f0[k].0 == before[i].id;
                    assert(f[k].0 == r[i].id);
                } else {
                    assert(f[f.len() - 1].0 == r[i].id);
                }
            }
            assert forall|i: int, j: int| 0 <= i < j < r.len() implies r[i].id < r[j].id by {
                if j == r.len() - 1 {
                    assert(r[i] == before[i]);
                } else {
                    assert(r[i] == before[i] && r[j] == before[j]);
                }
            }
            assert forall|k: int, l: int| 0 <= k < l < f.len() implies f[k].0 < f[l].0 by {
                if l == f.len() - 1 {
                    assert(f[k] == f0[k]);
                } else {
                    assert(f[k] == f0[k] && f[l] == f0[l]);
                }
            }
            assert forall|i: int| 0 <= i < r.len() implies 1 <= #[trigger] r[i].id <= self.next_id by {
                if i < r.len() - 1 {
                    assert(r[i] == before[i]);
                }
            }
            assert forall|k: int| 0 <= k < f.len() implies 1 <= #[trigger] f[k].0 <= self.next_id by {
                if k < f.len() - 1 {
                    assert(f[k] == f0[k]);
                }
            }
            assert(self.wf());
        }
        let ghost mid = *self;
        self.trim_tasks();
        proof {
            reveal(TaskManager::wf);
            TaskManager::lemma_trimmed_wf(&mid, self);
            lemma_unique_flag(self.cancel_flags@, self.cancel_flags@.len() - 1);
            lemma_trim_keeps_last(mid.records_v(), mid.history_limit);
            let t = self.records_v();
            assert forall|k: int| 0 <= k < t.len() - 1 implies #[trigger] t[k].id != id by {
                assert(t[k].id < t[t.len() - 1].id);
            }
        }
        TaskHandle { id }
    }

    /// Every record, oldest first.
    pub fn records(&self) -> (r: Vec<TaskRecord>)
        ensures
            records_view(r@) == self.records_v(),
    {
        let mut r: Vec<TaskRecord> = Vec::new();
        let mut i: usize = 0;
        while i < self.records.len()
            invariant
                i <= self.records@.len(),
                records_view(r@) == self.records_v().take(i as int),
            decreases self.records@.len() - i,
        {
            let ghost before = records_view(r@);
            r.push(self.records[i].duplicate());
            assert(records_view(r@) =~= before.push(self.records_v()[i as int]));
            assert(self.records_v().take(i + 1) =~= self.records_v().take(i as int).push(self.records_v()[i as int]));
            i += 1;
        }
        assert(self.records_v().take(i as int) =~= self.records_v());
        r
    }

    /// The records of tasks still in flight, oldest first.
    pub fn running(&self) -> (r: Vec<TaskRecord>)
        ensures
            records_view(r@) == in_flight_of(self.records_v()),
    {
        let mut r: Vec<TaskRecord> = Vec::new();
        let mut i: usize = 0;
        assert(self.records_v().take(0) =~= Seq::<TaskRecordV>::empty());
        while i < self.records.len()
            invariant
                i <= self.records@.len(),
                records_view(r@) == in_flight_of(self.records_v().take(i as int)),
            decreases self.records@.len() - i,
        {
            let ghost t = self.records_v().take(i + 1);
            assert(t.drop_last() =~= self.records_v().take(i as int));
            let st = self.records[i].status;
            if st == TaskStatus::Running || st == TaskStatus::CancelRequested {
                let ghost before = records_view(r@);
                r.push(self.records[i].duplicate());
                assert(records_view(r@) =~= before.push(self.records_v()[i as int]));
            }
            i += 1;
        }
        assert(self.records_v().take(i as int) =~= self.records_v());
        r
    }

    fn flag_index(&self, id: u64) -> (r: Option<usize>)
        ensures
            match r {
                Some(k) => k < self.flags_v().len() && self.flags_v()[k as int].0 == id && forall|m: int|
                    0 <= m < k ==> self.flags_v()[m].0 != id,
                None => forall|m: int| 0 <= m < self.flags_v().len() ==> self.flags_v()[m].0 != id,
            },
    {
        let mut k: usize = 0;
        while k < self.cancel_flags.len()
            invariant
                k <= self.cancel_flags@.len(),
                forall|m: int| 0 <= m < k ==> self.cancel_flags@[m].0 != id,
            decreases self.cancel_flags@.len() - k,
        {
            if self.cancel_flags[k].0 == id {
                return Some(k);
            }
            k += 1;
        }
        None
    }

    /// Whether task `id` has a live cancel flag that is set.
    pub open spec fn cancelled_v(&self, id: u64) -> bool {
        exists|m: int|
            0 <= m < self.flags_v().len() && self.flags_v()[m].0 == id && self.flags_v()[m].1 && forall|k: int|
                0 <= k < m ==> self.flags_v()[k].0 != id
    }

    /// Asks task `id` to cancel. `false` when the task is not live. A running
    /// task's record turns to CancelRequested.
    #[verifier::spinoff_prover]
    #[verifier::rlimit(30)]
    pub fn cancel(&mut self, id: u64) -> (r: bool)
        requires
            old(self).wf(),
        ensures
            final(self).wf(),
            final(self).retired_v() == old(self).retired_v(),
            r == exists|m: int| 0 <= m < old(self).flags_v().len() && old(self).flags_v()[m].0 == id,
            r ==> final(self).cancelled_v(id),
            !r ==> final(self).flags_v() == old(self).flags_v() && final(self).records_v() == old(self).records_v(),
            final(self).limit_v() == old(self).limit_v(),
            final(self).next_id_v() == old(self).next_id_v(),
            final(self).records_v().len() == old(self).records_v().len(),
            match record_index(old(self).records_v(), id) {
                Some(i) => final(self).records_v() == if r && old(self).records_v()[i].status
                    == TaskStatus::Running {
                    old(self).records_v().update(
                        i,
                        TaskRecordV {
                            status: TaskStatus::CancelRequested,
                            stage: "正在取消"@,
                            detail: "已收到用户取消请求，正在终止当前 API 请求"@,
                            ..old(self).records_v()[i]
                        },
                    )
                } else {
                    old(self).records_v()
                },
                None => final(self).records_v() == old(self).records_v(),
            },
            match flag_pos(old(self).flags_v(), id) {
                Some(k) => final(self).flags_v() == old(self).flags_v().update(k, (id, true)),
                None => final(self).flags_v() == old(self).flags_v(),
            },
    {
        let k = match self.flag_index(id) {
            Some(k) => k,
            None => {
                return false;
            },
        };
        self.cancel_flags.set(k, (id, true));
        proof {
            assert forall|j: int| 0 <= j < old(self).records_v().len() implies (#[trigger] self.records_v()[j]).id
                == old(self).records_v()[j].id && (in_flight(self.records_v()[j].status) ==> in_flight(
                old(self).records_v()[j].status,
            )) by {}
            TaskManager::lemma_same_shape_wf(old(self), self);
        }
        if let Some(i) = find_record(&self.records, id) {
            if self.records[i].status == TaskStatus::Running {
                let mut rec = self.records[i].duplicate();
                rec.status = TaskStatus::CancelRequested;
                rec.stage = string_of(&chars_of("正在取消"));
                rec.detail = string_of(&chars_of("已收到用户取消请求，正在终止当前 API 请求"));
                self.set_record(i, rec);
            }
        }
        proof {
            let m = k as int;
            let of = old(self).flags_v();
            assert(of[m].0 == id);
            let w = choose|w: int| 0 <= w < of.len() && of[w].0 == id && forall|j: int| 0 <= j < w ==> of[j].0 != id;
            if w < m {
                assert(of[w].0 == id);
            } else if w > m {
                assert(of[m].0 == id);
            }
            assert(flag_pos(of, id) == Some(m));
            assert(self.flags_v()[m].0 == id && self.flags_v()[m].1);
            assert forall|j: int| 0 <= j < m implies self.flags_v()[j].0 != id by {
                assert(self.flags_v()[j] == old(self).flags_v()[j]);
            }
        }
        true
    }

    /// Sets the stage, progress (at most 100) and detail of a task that has
    /// not finished.
    /// Replaces record `i` by one of the same id and status.
#[verifier::spinoff_prover]
    fn set_record(&mut self, i: usize, rec: TaskRecord)
        requires
            old(self).wf(),
            i < old(self).records_v().len(),
            rec@.id == old(self).records_v()[i as int].id,
            in_flight(rec@.status) ==> in_flight(old(self).records_v()[i as int].status),
        ensures
            final(self).wf(),
            final(self).records_v() == old(self).records_v().update(i as int, rec@),
            final(self).flags_v() == old(self).flags_v(),
            final(self).retired_v() == old(self).retired_v(),
            final(self).limit_v() == old(self).limit_v(),
            final(self).next_id_v() == old(self).next_id_v(),
    {
        let ghost before = records_view(self.records@);
        self.records.set(i, rec);
        assert(records_view(self.records@) =~= before.update(i as int, rec@));
        proof {
            let r = self.records_v();
            assert forall|j: int| 0 <= j < before.len() implies (#[trigger] r[j]).id == before[j].id && (in_flight(
                r[j].status,
            ) ==> in_flight(before[j].status)) by {
                if j == i as int {
                    assert(r[j] == rec@);
                } else {
                    assert(r[j] == before[j]);
                }
            }
            TaskManager::lemma_same_shape_wf(old(self), self);
        }
    }

    fn update(&mut self, id: u64, stage: &str, progress: u8, detail: &str)
        requires
            old(self).wf(),
        ensures
            final(self).wf(),
            final(self).retired_v() == old(self).retired_v(),
            final(self).records_v().len() == old(self).records_v().len(),
            final(self).flags_v() == old(self).flags_v(),
            final(self).limit_v() == old(self).limit_v(),
            final(self).next_id_v() == old(self).next_id_v(),
            match record_index(old(self).records_v(), id) {
                Some(i) => if terminal(old(self).records_v()[i].status) {
                    final(self).records_v() == old(self).records_v()
                } else {
                    final(self).records_v() == old(self).records_v().update(
                        i,
                        TaskRecordV {
                            stage: stage@,
                            progress_percent: if progress < 100 {
                                progress
                            } else {
                                100
                            },
                            detail: detail@,
                            ..old(self).records_v()[i]
                        },
                    )
                },
                None => final(self).records_v() == old(self).records_v(),
            },
    {
        if let Some(i) = find_record(&self.records, id) {
            let st = self.records[i].status;
            if st == TaskStatus::Completed || st == TaskStatus::Cancelled || st == TaskStatus::Failed {
                return;
            }
            let mut rec = self.records[i].duplicate();
            rec.stage = string_of(&chars_of(stage));
            rec.progress_percent = if progress < 100 {
                progress
            } else {
                100
            };
            rec.detail = string_of(&chars_of(detail));
            self.set_record(i, rec);
        }
    }

    #[verifier::rlimit(40)]
    fn cancel_and_note(&mut self, id: u64, reason: &str)
        requires
            old(self).wf(),
        ensures
            final(self).wf(),
            final(self).retired_v() == old(self).retired_v(),
            final(self).limit_v() == old(self).limit_v(),
            final(self).next_id_v() == old(self).next_id_v(),
            (final(self).records_v(), final(self).flags_v()) == cancel_step(
                old(self).records_v(),
                old(self).flags_v(),
                id,
                reason@,
            ),
    {
        let ghost r0 = self.records_v();
        let ghost f0 = self.flags_v();
        if self.cancel(id) {
            let ghost r1 = self.records_v();
            proof {
                lemma_record_index(r0, id);
                assert forall|j: int| 0 <= j < r0.len() implies r0[j].id == r1[j].id by {}
                lemma_record_index_same_ids(r0, r1, id);
            }
            self.update(id, "正在取消", 100, reason);
            proof {
                lemma_cancel_then_note(r0, r1, self.records_v(), f0, id, reason@);
                assert(self.flags_v() == cancel_step(r0, f0, id, reason@).1);
            }
        } else {
            assert(flag_pos(f0, id) is None);
        }
    }

    /// Asks every running task to cancel, writing `reason` to each.
    pub fn cancel_all_running(&mut self, reason: &str)
        requires
            old(self).wf(),
        ensures
            final(self).wf(),
            final(self).retired_v() == old(self).retired_v(),
            final(self).limit_v() == old(self).limit_v(),
            final(self).next_id_v() == old(self).next_id_v(),
            (final(self).records_v(), final(self).flags_v()) == cancel_all_v(
                old(self).records_v(),
                old(self).flags_v(),
                running_ids(old(self).records_v()),
                reason@,
            ),
    {
        let ghost r0 = self.records_v();
        let mut ids: Vec<u64> = Vec::new();
        let mut i: usize = 0;
        while i < self.records.len()
            invariant
                i <= self.records@.len(),
                r0 == self.records_v(),
                ids@ == running_ids(r0.take(i as int)),
            decreases self.records@.len() - i,
        {
            assert(r0.take(i as int + 1).drop_last() =~= r0.take(i as int));
            if self.records[i].status == TaskStatus::Running {
                ids.push(self.records[i].id);
            }
            i += 1;
        }
        assert(r0.take(i as int) =~= r0);
        let mut k: usize = 0;
        while k < ids.len()
            invariant
                self.wf(),
                self.retired_v() == old(self).retired_v(),
                k <= ids@.len(),
                ids@ == running_ids(r0),
                r0 == old(self).records_v(),
                self.limit_v() == old(self).limit_v(),
                self.next_id_v() == old(self).next_id_v(),
                (self.records_v(), self.flags_v()) == cancel_all_v(
                    old(self).records_v(),
                    old(self).flags_v(),
                    ids@.take(k as int),
                    reason@,
                ),
            decreases ids.len() - k,
        {
            assert(ids@.take(k as int + 1).drop_last() =~= ids@.take(k as int));
            self.cancel_and_note(ids[k], reason);
            k += 1;
        }
        assert(ids@.take(k as int) =~= ids@);
    }

    /// Closes task `id` with `status`: progress 100, the status's stage,
    /// `detail` and the finish time; drops its cancel flag and trims the
    /// history.
    /// After the first record of `id` was closed, no record of `id` is in
    /// flight.
    proof fn lemma_settled_id(a: &TaskManager, b: &TaskManager, id: u64)
        requires
            a.wf(),
            b.wf(),
            match record_index(a.records_v(), id) {
                Some(i) => b.records_v().len() == a.records_v().len() && !in_flight(b.records_v()[i].status) && forall|j: int|
                    0 <= j < a.records_v().len() && j != i ==> b.records_v()[j] == a.records_v()[j],
                None => b.records_v() == a.records_v(),
            },
        ensures
            forall|j: int|
                0 <= j < b.records_v().len() && b.records_v()[j].id == id ==> !in_flight(#[trigger] b.records_v()[j].status),
    {
        reveal(TaskManager::wf);
        lemma_record_index(a.records_v(), id);
        let r = b.records_v();
        assert forall|j: int| 0 <= j < r.len() && r[j].id == id implies !in_flight(#[trigger] r[j].status) by {
            match record_index(a.records_v(), id) {
                Some(i) => {
                    if j != i {
                        assert(r[j] == a.records_v()[j]);
                        lemma_unique_index(a.records_v(), j);
                    }
                },
                None => {
                    assert(r[j] == a.records_v()[j]);
                },
            }
        }
    }

    /// Drops the live cancel flag of a task no longer in flight, keeping its
    /// value among the retired flags.
    #[verifier::spinoff_prover]
    fn retire_flag(&mut self, id: u64)
        requires
            old(self).wf(),
            forall|j: int|
                0 <= j < old(self).records_v().len() && old(self).records_v()[j].id == id ==> !in_flight(
                    #[trigger] old(self).records_v()[j].status,
                ),
        ensures
            final(self).wf(),
            final(self).records_v() == old(self).records_v(),
            final(self).limit_v() == old(self).limit_v(),
            final(self).next_id_v() == old(self).next_id_v(),
            flag_dropped(old(self).flags_v(), final(self).flags_v(), id),
            match flag_pos(old(self).flags_v(), id) {
                Some(k) => final(self).retired_v() == old(self).retired_v().push(old(self).flags_v()[k]),
                None => final(self).retired_v() == old(self).retired_v(),
            },
    {
        let ghost f0 = self.cancel_flags@;
        match first_pos(&self.cancel_flags, id) {
            Some(k) => {
                let entry = self.cancel_flags[k];
                self.cancel_flags.remove(k);
                self.retired_flags.push(entry);
                proof {
                    reveal(TaskManager::wf);
                    let f = self.cancel_flags@;
                    let r = self.records_v();
                    assert(f =~= f0.remove(k as int));
                    assert forall|a: int, b: int| 0 <= a < b < f.len() implies f[a].0 < f[b].0 by {
                        let a2 = if a < k { a } else { a + 1 };
                        let b2 = if b < k { b } else { b + 1 };
                        assert(f[a] == f0[a2] && f[b] == f0[b2]);
                    }
                    assert forall|q: int| 0 <= q < f.len() implies 1 <= #[trigger] f[q].0 <= self.next_id by {
                        let q2 = if q < k { q } else { q + 1 };
                        assert(f[q] == f0[q2]);
                    }
                    assert forall|j: int| 0 <= j < r.len() && in_flight(#[trigger] r[j].status) implies flag_pos(f, r[j].id) is Some by {
                        let q = choose|q: int| 0 <= q < f0.len() && f0[q].0 == r[j].id;
                        assert(r[j].id != id);
                        assert(q != k);
                        if q < k {
                            assert(f[q] == f0[q]);
                        } else {
                            assert(f[q - 1] == f0[q]);
                        }
                    }
                    let w = choose|w: int| 0 <= w < f0.len() && f0[w].0 == id && forall|m: int| 0 <= m < w ==> f0[m].0 != id;
                    assert(w == k);
                }
            },
            None => {},
        }
    }

    #[verifier::spinoff_prover]
    fn finish(&mut self, id: u64, status: TaskStatus, detail: &str)
        requires
            old(self).wf(),
            terminal(status),
        ensures
            final(self).wf(),
            match flag_pos(old(self).flags_v(), id) {
                Some(k) => final(self).retired_v() == old(self).retired_v().push(old(self).flags_v()[k]),
                None => final(self).retired_v() == old(self).retired_v(),
            },
            final(self).limit_v() == old(self).limit_v(),
            final(self).next_id_v() == old(self).next_id_v(),
            flag_dropped(old(self).flags_v(), final(self).flags_v(), id),
            final(self).closed_v(id),
            exists|mid: Seq<TaskRecordV>| #![trigger trim_v(mid, old(self).limit_v())]
                final(self).records_v() == trim_v(mid, old(self).limit_v()) && finished_v(
                    old(self).records_v(),
                    mid,
                    id,
                    status,
                    detail@,
                ),
    {
        if let Some(i) = find_record(&self.records, id) {
            let mut rec = self.records[i].duplicate();
            rec.status = status;
            rec.progress_percent = 100;
            let stage = match status {
                TaskStatus::Completed => "完成",
                TaskStatus::Cancelled => "已取消",
                TaskStatus::Failed => "失败",
                TaskStatus::CancelRequested => "正在取消",
                TaskStatus::Running => "运行中",
            };
            rec.stage = string_of(&chars_of(stage));
            rec.detail = string_of(&chars_of(detail));
            rec.finished_at_ms = Some(now_ms());
            self.set_record(i, rec);
        }
        let ghost mid = records_view(self.records@);
        proof {
            TaskManager::lemma_settled_id(old(self), self, id);
        }
        proof {
            TaskManager::lemma_wf_increasing(old(self));
        }
        self.retire_flag(id);
        proof {
            lemma_dropped_flag_gone(old(self).flags_v(), self.flags_v(), id);
        }
        let ghost before_trim = *self;
        self.trim_tasks();
        proof {
            TaskManager::lemma_trimmed_wf(&before_trim, self);
            TaskManager::lemma_closed_after_trim(&before_trim, self, id);
        }
        assert(self.records_v() == trim_v(mid, old(self).limit_v()));
    }
}

impl TaskHandle {
    pub closed spec fn id_v(&self) -> u64 {
        self.id
    }

    pub fn id(&self) -> (r: u64)
        ensures
            r == self.id_v(),
    {
        self.id
    }

    /// The task's cancel flag as the manager holds it: `None` once the task
    /// has finished and its flag was dropped.
    pub fn cancel_flag(&self, manager: &TaskManager) -> (r: Option<bool>)
        ensures
            match flag_pos(manager.flags_v(), self.id_v()) {
                Some(k) => r == Some(manager.flags_v()[k].1),
                None => r is None,
            },
    {
        match manager.flag_index(self.id) {
            Some(k) => {
                proof {
                    let f = manager.flags_v();
                    let m = k as int;
                    let w = choose|w: int| 0 <= w < f.len() && f[w].0 == self.id && forall|j: int| 0 <= j < w ==> f[j].0 != self.id;
                    if w < m {
                        assert(f[w].0 == self.id);
                    } else if w > m {
                        assert(f[m].0 == self.id);
                    }
                }
                Some(manager.cancel_flags[k].1)
            },
            None => None,
        }
    }

    /// Whether the task was asked to cancel: its live flag, or the flag the
    /// handle kept when the task finished.
    pub fn is_cancelled(&self, manager: &TaskManager) -> (r: bool)
        ensures
            r == manager.handle_cancelled_v(self.id_v()),
    {
        match first_pos(&manager.cancel_flags, self.id) {
            Some(k) => manager.cancel_flags[k].1,
            None => match first_pos(&manager.retired_flags, self.id) {
                Some(k) => manager.retired_flags[k].1,
                None => false,
            },
        }
    }

    /// Reports progress on the task (capped at 100) unless it has finished.
    pub fn progress(&self, manager: &mut TaskManager, stage: &str, progress_percent: u8, detail: &str)
        requires
            old(manager).wf(),
        ensures
            final(manager).wf(),
            final(manager).retired_v() == old(manager).retired_v(),
            final(manager).records_v().len() == old(manager).records_v().len(),
            final(manager).flags_v() == old(manager).flags_v(),
            final(manager).limit_v() == old(manager).limit_v(),
            final(manager).next_id_v() == old(manager).next_id_v(),
            match record_index(old(manager).records_v(), self.id_v()) {
                Some(i) => if terminal(old(manager).records_v()[i].status) {
                    final(manager).records_v() == old(manager).records_v()
                } else {
                    final(manager).records_v() == old(manager).records_v().update(
                        i,
                        TaskRecordV {
                            stage: stage@,
                            progress_percent: if progress_percent < 100 {
                                progress_percent
                            } else {
                                100
                            },
                            detail: detail@,
                            ..old(manager).records_v()[i]
                        },
                    )
                },
                None => final(manager).records_v() == old(manager).records_v(),
            },
    {
        manager.update(self.id, stage, progress_percent, detail);
    }

    /// Closes the task as completed.
    pub fn complete(&self, manager: &mut TaskManager, detail: &str)
        requires
            old(manager).wf(),
        ensures
            final(manager).wf(),
            match flag_pos(old(manager).flags_v(), self.id_v()) {
                Some(k) => final(manager).retired_v() == old(manager).retired_v().push(old(manager).flags_v()[k]),
                None => final(manager).retired_v() == old(manager).retired_v(),
            },
            final(manager).limit_v() == old(manager).limit_v(),
            final(manager).next_id_v() == old(manager).next_id_v(),
            flag_dropped(old(manager).flags_v(), final(manager).flags_v(), self.id_v()),
            final(manager).closed_v(self.id_v()),
            exists|mid: Seq<TaskRecordV>| #![trigger trim_v(mid, old(manager).limit_v())]
                final(manager).records_v() == trim_v(mid, old(manager).limit_v()) && finished_v(
                    old(manager).records_v(),
                    mid,
                    self.id_v(),
                    TaskStatus::Completed,
                    detail@,
                ),
    {
        manager.finish(self.id, TaskStatus::Completed, detail);
    }

    /// Closes the task as cancelled.
    pub fn cancelled(&self, manager: &mut TaskManager, detail: &str)
        requires
            old(manager).wf(),
        ensures
            final(manager).wf(),
            match flag_pos(old(manager).flags_v(), self.id_v()) {
                Some(k) => final(manager).retired_v() == old(manager).retired_v().push(old(manager).flags_v()[k]),
                None => final(manager).retired_v() == old(manager).retired_v(),
            },
            final(manager).limit_v() == old(manager).limit_v(),
            final(manager).next_id_v() == old(manager).next_id_v(),
            flag_dropped(old(manager).flags_v(), final(manager).flags_v(), self.id_v()),
            final(manager).closed_v(self.id_v()),
            exists|mid: Seq<TaskRecordV>| #![trigger trim_v(mid, old(manager).limit_v())]
                final(manager).records_v() == trim_v(mid, old(manager).limit_v()) && finished_v(
                    old(manager).records_v(),
                    mid,
                    self.id_v(),
                    TaskStatus::Cancelled,
                    detail@,
                ),
    {
        manager.finish(self.id, TaskStatus::Cancelled, detail);
    }

    /// Closes the task as failed.
    pub fn failed(&self, manager: &mut TaskManager, detail: &str)
        requires
            old(manager).wf(),
        ensures
            final(manager).wf(),
            match flag_pos(old(manager).flags_v(), self.id_v()) {
                Some(k) => final(manager).retired_v() == old(manager).retired_v().push(old(manager).flags_v()[k]),
                None => final(manager).retired_v() == old(manager).retired_v(),
            },
            final(manager).limit_v() == old(manager).limit_v(),
            final(manager).next_id_v() == old(manager).next_id_v(),
            flag_dropped(old(manager).flags_v(), final(manager).flags_v(), self.id_v()),
            final(manager).closed_v(self.id_v()),
            exists|mid: Seq<TaskRecordV>| #![trigger trim_v(mid, old(manager).limit_v())]
                final(manager).records_v() == trim_v(mid, old(manager).limit_v()) && finished_v(
                    old(manager).records_v(),
                    mid,
                    self.id_v(),
                    TaskStatus::Failed,
                    detail@,
                ),
    {
        manager.finish(self.id, TaskStatus::Failed, detail);
    }
}

#[derive(Debug, Clone)]
pub struct TraceEvent {
    pub timestamp_ms: u64,
    pub round_number: Option<u32>,
    pub phase: Option<String>,
    pub category: String,
    pub title: String,
    pub detail: String,
    pub task_id: Option<u64>,
}

#[derive(Debug, Clone)]
pub struct ModelConfigSnapshot {
    pub api_compatibility: String,
    pub base_url: String,
    pub model: String,
    pub thinking: bool,
    pub max_tokens: u32,
    pub context_window: u32,
    pub timeout_seconds: u64,
    /// The secret itself is never persisted; only whether one was configured.
    pub api_key_configured: bool,
}

} // verus!
