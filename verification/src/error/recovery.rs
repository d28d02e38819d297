//! Deciding how to recover from an error, and how often to try.
//!
//! The work that recovery needs (looking up or creating the default room,
//! restarting processes, waiting) happens outside; this module decides which
//! work is needed, counts the attempts per error and reports on them.

use super::{
    ActionView, ErrorHandlingConfig, ErrorType, UserError, UserErrorView, actions_view,
};
use crate::text::{contains_str, decimal, eq_str, eq_string, push_decimal, seq_contains};
use vstd::prelude::*;

verus! {

/// The number of an error type, as `as u8` gives it.
pub open spec fn error_type_number(t: ErrorType) -> nat {
    match t {
        ErrorType::RoomError => 0,
        ErrorType::ProcessError => 1,
        ErrorType::FileError => 2,
        ErrorType::ConfigError => 3,
        ErrorType::NetworkError => 4,
        ErrorType::SystemError => 5,
    }
}

/// The key under which attempts to recover from an error are counted:
/// `{error_code}:{type number}`.
pub open spec fn error_key(e: UserErrorView) -> Seq<char> {
    e.error_code + ":"@ + decimal(error_type_number(e.error_type))
}

/// What must be done to recover from an error.
#[derive(Debug, Clone, Copy, PartialEq, Eq, Structural)]
pub enum RecoveryPlan {
    /// The outcome is known: recovered or not.
    Finished(bool),
    /// Wait for `millis` milliseconds; the outcome is then `outcome`.
    Pause { millis: u64, outcome: bool },
    /// Make sure the default room exists, creating it from the basic template
    /// if needed; recovered if it exists afterwards.
    EnsureDefaultRoom,
    /// Wait 500 milliseconds and restart failed processes; recovered if
    /// `process_restart_succeeded` says so for the number of processes then.
    RestartFailedProcesses,
    /// Wait 300 milliseconds and stop old processes; then recovered.
    CleanupOldProcesses,
}

/// The plan for an error of the given kind, once an attempt is allowed.
pub open spec fn plan_for(e: UserErrorView, has_process_manager: bool) -> RecoveryPlan {
    match e.error_type {
        ErrorType::RoomError => if e.error_code == "ROOM_003"@ {
            RecoveryPlan::EnsureDefaultRoom
        } else {
            RecoveryPlan::Finished(false)
        },
        ErrorType::ProcessError => if !has_process_manager {
            RecoveryPlan::Finished(false)
        } else if e.error_code == "PROC_001"@ {
            RecoveryPlan::Pause { millis: 2000, outcome: true }
        } else if e.error_code == "PROC_002"@ {
            RecoveryPlan::RestartFailedProcesses
        } else {
            RecoveryPlan::Finished(false)
        },
        ErrorType::ConfigError => RecoveryPlan::Finished(true),
        ErrorType::FileError => RecoveryPlan::Finished(
            seq_contains(e.message_jp, "ディレクトリ"@) || seq_contains(e.message_jp, "フォルダ"@),
        ),
        ErrorType::SystemError => if e.error_code == "SYS_001"@ {
            RecoveryPlan::CleanupOldProcesses
        } else {
            RecoveryPlan::Finished(false)
        },
        ErrorType::NetworkError => RecoveryPlan::Pause { millis: 1000, outcome: true },
    }
}

/// The count recorded under `key`; zero when there is none.
pub open spec fn count_in(s: Seq<(Seq<char>, u32)>, key: Seq<char>) -> u32
    decreases s.len(),
{
    if s.len() == 0 {
        0
    } else if s.last().0 == key {
        s.last().1
    } else {
        count_in(s.drop_last(), key)
    }
}

/// The sum of all counts.
pub open spec fn sum_counts(s: Seq<(Seq<char>, u32)>) -> nat
    decreases s.len(),
{
    if s.len() == 0 {
        0
    } else {
        sum_counts(s.drop_last()) + s.last().1 as nat
    }
}

/// How many counts have reached `max`.
pub open spec fn count_at_limit(s: Seq<(Seq<char>, u32)>, max: u32) -> nat
    decreases s.len(),
{
    if s.len() == 0 {
        0
    } else {
        count_at_limit(s.drop_last(), max) + if s.last().1 >= max {
            1nat
        } else {
            0nat
        }
    }
}

/// Counts of recovery attempts.
#[derive(Debug, Clone, Copy)]
pub struct RecoveryStats {
    pub total_attempts: u32,
    pub unique_errors: u32,
    pub max_attempts_reached: u32,
}

/// Decides recovery from errors and counts the attempts per error.
pub struct ErrorRecoveryManager {
    /// Whether processes can be managed, which recovery of process errors needs.
    has_process_manager: bool,
    /// Attempts per error key; no key occurs twice.
    recovery_attempts: Vec<(String, u32)>,
    max_recovery_attempts: u32,
    config: ErrorHandlingConfig,
}

/// Whether a process restart recovered, given the number of processes afterwards.
pub fn process_restart_succeeded(process_count: usize) -> (b: bool)
    ensures
        b == (process_count > 0),
{
    process_count > 0
}

/// The guidance text for the actions from `from` on.
pub open spec fn guidance_action_lines(actions: Seq<ActionView>, from: int) -> Seq<char>
    decreases actions.len() - from,
{
    if from >= actions.len() || from < 0 {
        Seq::empty()
    } else {
        decimal((from + 1) as nat) + ". "@ + actions[from].description + "\n"@ + (
        match actions[from].command {
            Some(c) => "   コマンド: "@ + c + "\n"@,
            None => Seq::empty(),
        }) + guidance_action_lines(actions, from + 1)
    }
}

/// Guidance for recovering by hand.
pub open spec fn guidance_text(e: UserErrorView) -> Seq<char> {
    "【エラー】"@ + e.message_jp + "\n"@ + "【対処法】"@ + e.guidance + "\n\n"@ + (if e.recovery_actions.len()
        > 0 {
        "【推奨アクション】\n"@ + guidance_action_lines(e.recovery_actions, 0)
    } else {
        Seq::empty()
    }) + "\n【エラーコード】"@ + e.error_code
}

impl ErrorRecoveryManager {
    pub closed spec fn attempts_view(&self) -> Seq<(Seq<char>, u32)> {
        self.recovery_attempts@.map_values(|p: (String, u32)| (p.0@, p.1))
    }

    pub closed spec fn max_spec(&self) -> u32 {
        self.max_recovery_attempts
    }

    pub closed spec fn auto_recovery_spec(&self) -> bool {
        self.config.auto_recovery
    }

    pub closed spec fn has_process_manager_spec(&self) -> bool {
        self.has_process_manager
    }

    /// No key occurs twice, and every count is at least one and does not
    /// exceed the limit.
    pub closed spec fn wf(&self) -> bool {
        &&& forall|i: int, j: int|
            0 <= i < j < self.attempts_view().len() ==> #[trigger] self.attempts_view()[i].0
                != #[trigger] self.attempts_view()[j].0
        &&& forall|i: int|
            0 <= i < self.attempts_view().len() ==> 1 <= #[trigger] self.attempts_view()[i].1
                <= self.max_recovery_attempts
        &&& self.max_recovery_attempts == self.config.max_recovery_attempts
    }

    /// A manager with the default error handling settings.
    pub fn new() -> (r: Self)
        ensures
            r.wf(),
            r.attempts_view() == Seq::<(Seq<char>, u32)>::empty(),
            r.max_spec() == 3,
            r.auto_recovery_spec(),
            !r.has_process_manager_spec(),
    {
        Self::with_config(ErrorHandlingConfig::default())
    }

    /// A manager with the given settings.
    pub fn with_config(config: ErrorHandlingConfig) -> (r: Self)
        ensures
            r.wf(),
            r.attempts_view() == Seq::<(Seq<char>, u32)>::empty(),
            r.max_spec() == config.max_recovery_attempts,
            r.auto_recovery_spec() == config.auto_recovery,
            !r.has_process_manager_spec(),
    {
        let max_recovery_attempts = config.max_recovery_attempts;
        let r = ErrorRecoveryManager {
            has_process_manager: false,
            recovery_attempts: Vec::new(),
            max_recovery_attempts,
            config,
        };
        assert(r.attempts_view() =~= Seq::<(Seq<char>, u32)>::empty());
        r
    }

    /// Records that processes can be managed.
    pub fn set_process_manager(&mut self)
        requires
            old(self).wf(),
        ensures
            final(self).wf(),
            final(self).has_process_manager_spec(),
            final(self).attempts_view() == old(self).attempts_view(),
            final(self).max_spec() == old(self).max_spec(),
            final(self).auto_recovery_spec() == old(self).auto_recovery_spec(),
    {
        self.has_process_manager = true;
        assert(self.attempts_view() == old(self).attempts_view());
    }

    /// Where `key` is recorded, if it is.
    fn find(&self, key: &String) -> (r: Option<usize>)
        ensures
            match r {
                Some(i) => i < self.attempts_view().len() && self.attempts_view()[i as int].0
                    == key@,
                None => forall|i: int|
                    0 <= i < self.attempts_view().len() ==> #[trigger] self.attempts_view()[i].0
                        != key@,
            },
    {
        let mut i: usize = 0;
        while i < self.recovery_attempts.len()
            invariant
                0 <= i <= self.recovery_attempts@.len(),
                forall|j: int| 0 <= j < i ==> #[trigger] self.attempts_view()[j].0 != key@,
            decreases self.recovery_attempts.len() - i,
        {
            if eq_string(&self.recovery_attempts[i].0, key) {
                return Some(i);
            }
            i = i + 1;
        }
        None
    }

    /// The number of attempts recorded under `error_key`.
    pub fn get_recovery_attempts(&self, error_key: &str) -> (n: u32)
        requires
            self.wf(),
        ensures
            n == count_in(self.attempts_view(), error_key@),
    {
        let key = String::from_str(error_key);
        match self.find(&key) {
            Some(i) => {
                proof {
                    lemma_count_at(self.attempts_view(), i as int);
                }
                self.recovery_attempts[i].1
            },
            None => {
                proof {
                    lemma_count_absent(self.attempts_view(), key@);
                }
                0
            },
        }
    }

    pub fn get_max_recovery_attempts(&self) -> (n: u32)
        ensures
            n == self.max_spec(),
    {
        self.max_recovery_attempts
    }

    /// Starts a recovery attempt for `error` and says what must be done.
    ///
    /// Nothing is attempted, and nothing counted, when automatic recovery is off
    /// or the error's attempts have reached the limit. Otherwise the attempt is
    /// counted under the error's key and the plan for the error is returned.
    pub fn attempt_recovery(&mut self, error: &UserError) -> (plan: RecoveryPlan)
        requires
            old(self).wf(),
        ensures
            final(self).wf(),
            final(self).max_spec() == old(self).max_spec(),
            final(self).auto_recovery_spec() == old(self).auto_recovery_spec(),
            final(self).has_process_manager_spec() == old(self).has_process_manager_spec(),
            ({
                let key = error_key(error@);
                let before = count_in(old(self).attempts_view(), key);
                if !old(self).auto_recovery_spec() || before >= old(self).max_spec() {
                    &&& plan == RecoveryPlan::Finished(false)
                    &&& final(self).attempts_view() == old(self).attempts_view()
                } else {
                    &&& plan == plan_for(error@, old(self).has_process_manager_spec())
                    &&& count_in(final(self).attempts_view(), key) == before + 1
                    &&& forall|k: Seq<char>|
                        k != key ==> count_in(#[trigger] final(self).attempts_view(), k)
                            == count_in(old(self).attempts_view(), k)
                }
            }),
    {
        if !self.config.auto_recovery {
            return RecoveryPlan::Finished(false);
        }
        let key = key_of(error);
        let found = self.find(&key);
        let attempts: u32 = match found {
            Some(i) => self.recovery_attempts[i].1,
            None => 0,
        };
        proof {
            match found {
                Some(i) => lemma_count_at(self.attempts_view(), i as int),
                None => lemma_count_absent(self.attempts_view(), key@),
            }
        }
        if attempts >= self.max_recovery_attempts {
            return RecoveryPlan::Finished(false);
        }
        let ghost before = self.attempts_view();
        match found {
            Some(i) => {
                self.recovery_attempts.set(i, (key, attempts + 1));
                proof {
                    assert(self.attempts_view() =~= before.update(i as int, (key@, (attempts + 1) as u32)));
                    lemma_count_update(before, i as int, (attempts + 1) as u32);
                }
            },
            None => {
                self.recovery_attempts.push((key, 1));
                proof {
                    assert(self.attempts_view() =~= before.push((key@, 1u32)));
                    assert(self.attempts_view().drop_last() =~= before);
                }
            },
        }
        self.plan(error)
    }

    /// The plan for an error, once an attempt is allowed.
    fn plan(&self, error: &UserError) -> (p: RecoveryPlan)
        ensures
            p == plan_for(error@, self.has_process_manager),
    {
        match error.error_type {
            ErrorType::RoomError => {
                if eq_str(&error.error_code, "ROOM_003") {
                    RecoveryPlan::EnsureDefaultRoom
                } else {
                    RecoveryPlan::Finished(false)
                }
            },
            ErrorType::ProcessError => {
                if !self.has_process_manager {
                    RecoveryPlan::Finished(false)
                } else if eq_str(&error.error_code, "PROC_001") {
                    RecoveryPlan::Pause { millis: 2000, outcome: true }
                } else if eq_str(&error.error_code, "PROC_002") {
                    RecoveryPlan::RestartFailedProcesses
                } else {
                    RecoveryPlan::Finished(false)
                }
            },
            ErrorType::ConfigError => RecoveryPlan::Finished(true),
            ErrorType::FileError => {
                let m = error.message_jp.as_str();
                RecoveryPlan::Finished(contains_str(m, "ディレクトリ") || contains_str(m, "フォルダ"))
            },
            ErrorType::SystemError => {
                if eq_str(&error.error_code, "SYS_001") {
                    RecoveryPlan::CleanupOldProcesses
                } else {
                    RecoveryPlan::Finished(false)
                }
            },
            ErrorType::NetworkError => RecoveryPlan::Pause { millis: 1000, outcome: true },
        }
    }

    /// Guidance for recovering by hand: the message, what to do, the
    /// recommended actions with their commands, and the error code.
    pub fn generate_recovery_guidance(&self, error: &UserError) -> (s: String)
        ensures
            s@ == guidance_text(error@),
    {
        let mut g = String::from_str("【エラー】");
        g.append(error.message_jp.as_str());
        g.append("\n");
        g.append("【対処法】");
        g.append(error.guidance.as_str());
        g.append("\n\n");
        if error.recovery_actions.len() > 0 {
            g.append("【推奨アクション】\n");
            let ghost before_list = g@;
            let ghost acts = error@.recovery_actions;
            let mut i: usize = 0;
            while i < error.recovery_actions.len()
                invariant
                    0 <= i <= error.recovery_actions@.len(),
                    acts == actions_view(error.recovery_actions@),
                    g@ + guidance_action_lines(acts, i as int) == before_list
                        + guidance_action_lines(acts, 0),
                decreases error.recovery_actions.len() - i,
            {
                let a = &error.recovery_actions[i];
                let ghost av = acts[i as int];
                assert(av == a@);
                let ghost prev = g@;
                push_decimal(&mut g, (i as u64) + 1);
                g.append(". ");
                g.append(a.description.as_str());
                g.append("\n");
                match &a.command {
                    Some(c) => {
                        g.append("   コマンド: ");
                        g.append(c.as_str());
                        g.append("\n");
                    },
                    None => {},
                }
                assert(g@ =~= prev + (decimal((i + 1) as nat) + ". "@ + av.description + "\n"@ + (
                match av.command {
                    Some(c) => "   コマンド: "@ + c + "\n"@,
                    None => Seq::empty(),
                })));
                i = i + 1;
            }
            assert(guidance_action_lines(acts, i as int) =~= Seq::empty());
        }
        g.append("\n【エラーコード】");
        g.append(error.error_code.as_str());
        assert(g@ =~= guidance_text(error@));
        g
    }

    /// The total of all counts (wrapping as `u32` arithmetic does), the number of
    /// keys, and the number of keys whose count has reached the limit.
    pub fn get_recovery_stats(&self) -> (r: RecoveryStats)
        ensures
            r.total_attempts == sum_counts(self.attempts_view()) % 0x1_0000_0000,
            r.unique_errors == self.attempts_view().len() as u32,
            r.max_attempts_reached == count_at_limit(self.attempts_view(), self.max_spec()) as u32,
    {
        let mut total: u64 = 0;
        let mut reached: usize = 0;
        let mut i: usize = 0;
        while i < self.recovery_attempts.len()
            invariant
                0 <= i <= self.recovery_attempts@.len(),
                total == sum_counts(self.attempts_view().take(i as int)) % 0x1_0000_0000,
                reached == count_at_limit(self.attempts_view().take(i as int), self.max_recovery_attempts),
                reached <= i,
            decreases self.recovery_attempts.len() - i,
        {
            let ghost s = self.attempts_view();
            assert(s.take(i + 1).drop_last() =~= s.take(i as int));
            let c = self.recovery_attempts[i].1;
            total = (total + c as u64) % 0x1_0000_0000;
            if c >= self.max_recovery_attempts {
                reached = reached + 1;
            }
            i = i + 1;
        }
        assert(self.attempts_view().take(i as int) =~= self.attempts_view());
        RecoveryStats {
            total_attempts: total as u32,
            unique_errors: self.recovery_attempts.len() as u32,
            max_attempts_reached: reached as u32,
        }
    }
}

/// The key of an error: `{error_code}:{type number}`.
fn key_of(error: &UserError) -> (k: String)
    ensures
        k@ == error_key(error@),
{
    let mut k = error.error_code.clone();
    k.append(":");
    let n: u64 = match error.error_type {
        ErrorType::RoomError => 0,
        ErrorType::ProcessError => 1,
        ErrorType::FileError => 2,
        ErrorType::ConfigError => 3,
        ErrorType::NetworkError => 4,
        ErrorType::SystemError => 5,
    };
    push_decimal(&mut k, n);
    k
}

proof fn lemma_count_at(s: Seq<(Seq<char>, u32)>, i: int)
    requires
        0 <= i < s.len(),
        forall|a: int, b: int| 0 <= a < b < s.len() ==> #[trigger] s[a].0 != #[trigger] s[b].0,
    ensures
        count_in(s, s[i].0) == s[i].1,
    decreases s.len(),
{
    if i < s.len() - 1 {
        assert(s.last() == s[s.len() - 1]);
        lemma_count_at(s.drop_last(), i);
    }
}

proof fn lemma_count_absent(s: Seq<(Seq<char>, u32)>, k: Seq<char>)
    requires
        forall|i: int| 0 <= i < s.len() ==> #[trigger] s[i].0 != k,
    ensures
        count_in(s, k) == 0,
    decreases s.len(),
{
    if s.len() > 0 {
        assert(s.last() == s[s.len() - 1]);
        lemma_count_absent(s.drop_last(), k);
    }
}

proof fn lemma_count_update(s: Seq<(Seq<char>, u32)>, i: int, v: u32)
    requires
        0 <= i < s.len(),
        forall|a: int, b: int| 0 <= a < b < s.len() ==> #[trigger] s[a].0 != #[trigger] s[b].0,
    ensures
        count_in(s.update(i, (s[i].0, v)), s[i].0) == v,
        forall|k: Seq<char>| k != s[i].0 ==> count_in(#[trigger] s.update(i, (s[i].0, v)), k) == count_in(s, k),
    decreases s.len(),
{
    let t = s.update(i, (s[i].0, v));
    assert(t.last() == t[t.len() - 1]);
    assert(s.last() == s[s.len() - 1]);
    if i < s.len() - 1 {
        assert(t.drop_last() =~= s.drop_last().update(i, (s[i].0, v)));
        lemma_count_update(s.drop_last(), i, v);
        assert(t.last() == s.last());
        assert forall|k: Seq<char>| k != s[i].0 implies count_in(#[trigger] s.update(i, (s[i].0, v)), k)
            == count_in(s, k) by {
            assert(count_in(s.drop_last().update(i, (s[i].0, v)), k) == count_in(s.drop_last(), k));
        }
    } else {
        assert(t.drop_last() =~= s.drop_last());
        assert forall|k: Seq<char>| k != s[i].0 implies count_in(#[trigger] s.update(i, (s[i].0, v)), k)
            == count_in(s, k) by {
        }
    }
}

/// Of the process errors, only two can be recovered from, and only when
/// processes can be managed: PROC_001, by waiting two seconds, and PROC_002,
/// by restarting the failed processes. Every other process error (a task not
/// found, a full queue, a timeout, a failed dependency) is given up at once,
/// and restarting processes is the plan for PROC_002 alone.
pub proof fn process_errors_recover_by_code(e: UserErrorView, has_process_manager: bool)
    requires
        e.error_type == ErrorType::ProcessError,
    ensures
        !has_process_manager ==> plan_for(e, has_process_manager) == RecoveryPlan::Finished(false),
        has_process_manager && e.error_code == "PROC_001"@ ==> plan_for(e, has_process_manager)
            == (RecoveryPlan::Pause { millis: 2000, outcome: true }),
        has_process_manager && e.error_code == "PROC_002"@ ==> plan_for(e, has_process_manager)
            == RecoveryPlan::RestartFailedProcesses,
        e.error_code != "PROC_001"@ && e.error_code != "PROC_002"@ ==> plan_for(e, has_process_manager)
            == RecoveryPlan::Finished(false),
        plan_for(e, has_process_manager) == RecoveryPlan::RestartFailedProcesses ==> e.error_code
            == "PROC_002"@,
{
    reveal_strlit("PROC_001");
    reveal_strlit("PROC_002");
    assert("PROC_001"@[7] != "PROC_002"@[7]);
}

/// The plans for the other kinds of error: a missing default room (ROOM_003)
/// is fixed by making sure the room exists, other room errors are given up;
/// a configuration error counts as recovered; a network error is waited out
/// for a second; a resource shortage (SYS_001) is met by stopping old
/// processes, other system errors are given up; a file error is recovered
/// when its message is about a directory or folder. None of these depends on
/// whether processes can be managed.
pub proof fn other_errors_recover_by_kind(e: UserErrorView, has_process_manager: bool)
    ensures
        e.error_type == ErrorType::RoomError ==> plan_for(e, has_process_manager) == if e.error_code
            == "ROOM_003"@ {
            RecoveryPlan::EnsureDefaultRoom
        } else {
            RecoveryPlan::Finished(false)
        },
        e.error_type == ErrorType::ConfigError ==> plan_for(e, has_process_manager)
            == RecoveryPlan::Finished(true),
        e.error_type == ErrorType::NetworkError ==> plan_for(e, has_process_manager) == (RecoveryPlan::Pause {
            millis: 1000,
            outcome: true,
        }),
        e.error_type == ErrorType::SystemError ==> plan_for(e, has_process_manager) == if e.error_code
            == "SYS_001"@ {
            RecoveryPlan::CleanupOldProcesses
        } else {
            RecoveryPlan::Finished(false)
        },
        e.error_type == ErrorType::FileError ==> plan_for(e, has_process_manager) == RecoveryPlan::Finished(
            seq_contains(e.message_jp, "ディレクトリ"@) || seq_contains(e.message_jp, "フォルダ"@),
        ),
        e.error_type != ErrorType::ProcessError ==> plan_for(e, true) == plan_for(e, false),
{
}

/// The keys under which an attempt has been counted.
pub open spec fn attempted_keys(s: Seq<(Seq<char>, u32)>) -> Set<Seq<char>> {
    Set::new(|k: Seq<char>| count_in(s, k) > 0)
}

/// Every stored count is at least one, so the keys stored are exactly those
/// with attempts, and the number of unique errors that `get_recovery_stats`
/// reports is the number of keys with attempts.
pub proof fn unique_errors_are_attempted_keys(m: ErrorRecoveryManager)
    requires
        m.wf(),
    ensures
        attempted_keys(m.attempts_view()).finite(),
        attempted_keys(m.attempts_view()).len() == m.attempts_view().len(),
{
    let s = m.attempts_view();
    let keys = s.map_values(|p: (Seq<char>, u32)| p.0);
    assert(keys.no_duplicates()) by {
        assert forall|i: int, j: int| 0 <= i < keys.len() && 0 <= j < keys.len() && i != j implies keys[i]
            != keys[j] by {
            if i < j {
                assert(s[i].0 != s[j].0);
            } else {
                assert(s[j].0 != s[i].0);
            }
        }
    }
    assert(keys.to_set() =~= attempted_keys(s)) by {
        assert forall|k: Seq<char>| keys.to_set().contains(k) <==> attempted_keys(s).contains(k) by {
            if keys.to_set().contains(k) {
                let i = choose|i: int| 0 <= i < keys.len() && keys[i] == k;
                lemma_count_at(s, i);
            } else {
                assert forall|i: int| 0 <= i < s.len() implies #[trigger] s[i].0 != k by {
                    assert(keys[i] == s[i].0);
                }
                lemma_count_absent(s, k);
            }
        }
    }
    keys.unique_seq_to_set();
}

/// The values of `f` at the keys `ks`, added up.
pub open spec fn key_sum(ks: Seq<Seq<char>>, f: spec_fn(Seq<char>) -> nat) -> nat
    decreases ks.len(),
{
    if ks.len() == 0 {
        0
    } else {
        key_sum(ks.drop_last(), f) + f(ks.last())
    }
}

/// The count recorded under a key, as a number.
pub open spec fn count_of_key(s: Seq<(Seq<char>, u32)>) -> spec_fn(Seq<char>) -> nat {
    |k: Seq<char>| count_in(s, k) as nat
}

/// One for a key whose count has reached `max`, zero otherwise.
pub open spec fn reached_key(s: Seq<(Seq<char>, u32)>, max: u32) -> spec_fn(Seq<char>) -> nat {
    |k: Seq<char>| if count_in(s, k) >= max {
        1nat
    } else {
        0nat
    }
}

proof fn lemma_key_sum_remove(ks: Seq<Seq<char>>, f: spec_fn(Seq<char>) -> nat, j: int)
    requires
        0 <= j < ks.len(),
    ensures
        key_sum(ks, f) == key_sum(ks.remove(j), f) + f(ks[j]),
    decreases ks.len(),
{
    if j == ks.len() - 1 {
        assert(ks.remove(j) =~= ks.drop_last());
    } else {
        lemma_key_sum_remove(ks.drop_last(), f, j);
        assert(ks.remove(j).drop_last() =~= ks.drop_last().remove(j));
        assert(ks.remove(j).last() == ks.last());
    }
}

proof fn lemma_key_sum_congr(ks: Seq<Seq<char>>, f: spec_fn(Seq<char>) -> nat, g: spec_fn(Seq<char>) -> nat)
    requires
        forall|i: int| 0 <= i < ks.len() ==> f(#[trigger] ks[i]) == g(ks[i]),
    ensures
        key_sum(ks, f) == key_sum(ks, g),
    decreases ks.len(),
{
    if ks.len() > 0 {
        assert(f(ks[ks.len() - 1]) == g(ks[ks.len() - 1]));
        lemma_key_sum_congr(ks.drop_last(), f, g);
    }
}

proof fn lemma_stats_over_keys(s: Seq<(Seq<char>, u32)>, ks: Seq<Seq<char>>, max: u32)
    requires
        forall|i: int, j: int| 0 <= i < j < s.len() ==> #[trigger] s[i].0 != #[trigger] s[j].0,
        forall|i: int| 0 <= i < s.len() ==> 1 <= #[trigger] s[i].1,
        ks.no_duplicates(),
        ks.to_set() == attempted_keys(s),
    ensures
        key_sum(ks, count_of_key(s)) == sum_counts(s),
        key_sum(ks, reached_key(s, max)) == count_at_limit(s, max),
    decreases s.len(),
{
    if s.len() == 0 {
        if ks.len() > 0 {
            assert(ks.to_set().contains(ks[0]));
            assert(count_in(s, ks[0]) == 0);
        }
    } else {
        let t = s.drop_last();
        let k = s.last().0;
        assert(s.last() == s[s.len() - 1]);
        assert(count_in(s, k) == s.last().1);
        assert(attempted_keys(s).contains(k));
        assert(ks.to_set().contains(k));
        let j = choose|j: int| 0 <= j < ks.len() && ks[j] == k;
        let rest = ks.remove(j);
        assert forall|i: int| 0 <= i < t.len() implies #[trigger] t[i].0 != k by {
            assert(t[i] == s[i]);
        }
        lemma_count_absent(t, k);
        assert forall|x: Seq<char>| x != k implies count_in(s, x) == count_in(t, x) by {}
        assert(rest.no_duplicates()) by {
            assert forall|a: int, b: int| 0 <= a < rest.len() && 0 <= b < rest.len() && a != b implies rest[a]
                != rest[b] by {
                let a2 = if a < j { a } else { a + 1 };
                let b2 = if b < j { b } else { b + 1 };
                assert(rest[a] == ks[a2]);
                assert(rest[b] == ks[b2]);
            }
        }
        assert(rest.to_set() =~= attempted_keys(t)) by {
            assert forall|x: Seq<char>| rest.to_set().contains(x) <==> attempted_keys(t).contains(x) by {
                if rest.to_set().contains(x) {
                    let a = choose|a: int| 0 <= a < rest.len() && rest[a] == x;
                    let a2 = if a < j { a } else { a + 1 };
                    assert(ks[a2] == x);
                    assert(a2 != j);
                    assert(x != k);
                    assert(ks.to_set().contains(x));
                } else {
                    if attempted_keys(t).contains(x) {
                        assert(x != k);
                        assert(attempted_keys(s).contains(x));
                        assert(ks.to_set().contains(x));
                        let a = choose|a: int| 0 <= a < ks.len() && ks[a] == x;
                        assert(a != j);
                        let a1 = if a < j { a } else { a - 1 };
                        assert(rest[a1] == x);
                    }
                }
            }
        }
        assert forall|i: int, j2: int| 0 <= i < j2 < t.len() implies #[trigger] t[i].0 != #[trigger] t[j2].0 by {
            assert(t[i] == s[i]);
            assert(t[j2] == s[j2]);
        }
        assert forall|i: int| 0 <= i < t.len() implies 1 <= #[trigger] t[i].1 by {
            assert(t[i] == s[i]);
        }
        lemma_stats_over_keys(t, rest, max);
        assert forall|i: int| 0 <= i < rest.len() implies (count_of_key(s))(#[trigger] rest[i]) == (
        count_of_key(t))(rest[i]) && (reached_key(s, max))(rest[i]) == (reached_key(t, max))(rest[i]) by {
            let a2 = if i < j { i } else { i + 1 };
            assert(rest[i] == ks[a2]);
            assert(a2 != j);
        }
        lemma_key_sum_congr(rest, count_of_key(s), count_of_key(t));
        lemma_key_sum_congr(rest, reached_key(s, max), reached_key(t, max));
        lemma_key_sum_remove(ks, count_of_key(s), j);
        lemma_key_sum_remove(ks, reached_key(s, max), j);
    }
}

/// The statistics are sums over the keys with attempts, in whatever order
/// they are listed: the total is the sum of their counts (before it wraps
/// past `u32::MAX`), the unique errors are their number, and the errors at
/// the limit are the number of them whose count has reached it.
pub proof fn recovery_stats_over_attempted_keys(m: ErrorRecoveryManager, ks: Seq<Seq<char>>)
    requires
        m.wf(),
        ks.no_duplicates(),
        ks.to_set() == attempted_keys(m.attempts_view()),
    ensures
        key_sum(ks, count_of_key(m.attempts_view())) == sum_counts(m.attempts_view()),
        ks.len() == m.attempts_view().len(),
        key_sum(ks, reached_key(m.attempts_view(), m.max_spec())) == count_at_limit(
            m.attempts_view(),
            m.max_spec(),
        ),
{
    lemma_stats_over_keys(m.attempts_view(), ks, m.max_spec());
    unique_errors_are_attempted_keys(m);
    ks.unique_seq_to_set();
}

/// However many attempts are made, no count ever passes the limit.
pub proof fn attempts_never_exceed_limit(m: ErrorRecoveryManager, key: Seq<char>)
    requires
        m.wf(),
    ensures
        count_in(m.attempts_view(), key) <= m.max_spec(),
{
    lemma_count_bounded(m.attempts_view(), key, m.max_spec());
}

proof fn lemma_count_bounded(s: Seq<(Seq<char>, u32)>, k: Seq<char>, max: u32)
    requires
        forall|i: int| 0 <= i < s.len() ==> #[trigger] s[i].1 <= max,
    ensures
        count_in(s, k) <= max,
    decreases s.len(),
{
    if s.len() > 0 {
        assert(s.last() == s[s.len() - 1]);
        lemma_count_bounded(s.drop_last(), k, max);
    }
}

} // verus!
