//! Errors shown to the user: what went wrong, in Japanese and English, what to
//! do about it, and which recovery actions can run by themselves.

pub mod recovery;

use crate::text::{bool_text, decimal, eq_str, push_bool, push_decimal};
use vstd::prelude::*;

verus! {

/// Log level of the whole program and of single modules.
#[derive(Debug, Clone)]
pub struct LogLevel {
    pub default: String,
    /// Pairs of module path and level; no module occurs twice.
    pub modules: Vec<(String, String)>,
}

impl LogLevel {
    /// The modules and their levels as plain values.
    pub open spec fn modules_view(&self) -> Seq<(Seq<char>, Seq<char>)> {
        self.modules@.map_values(|p: (String, String)| (p.0@, p.1@))
    }

    /// Whether a level is set for `module`.
    pub fn contains_module(&self, module: &str) -> (b: bool)
        ensures
            b == exists|i: int| 0 <= i < self.modules@.len() && #[trigger] self.modules@[i].0@ == module@,
    {
        let mut i: usize = 0;
        while i < self.modules.len()
            invariant
                0 <= i <= self.modules@.len(),
                forall|j: int| 0 <= j < i ==> #[trigger] self.modules@[j].0@ != module@,
            decreases self.modules.len() - i,
        {
            if eq_str(&self.modules[i].0, module) {
                return true;
            }
            i = i + 1;
        }
        false
    }
}

impl Default for LogLevel {
    fn default() -> (r: Self)
        ensures
            r.default@ == "warn"@,
            r.modules_view() == seq![
                ("wezterm_parallel"@, "info"@),
                ("wezterm_parallel::room"@, "debug"@),
                ("wezterm_parallel::error"@, "debug"@),
                ("wezterm_parallel::process"@, "info"@),
            ],
    {
        let mut modules: Vec<(String, String)> = Vec::new();
        modules.push((String::from_str("wezterm_parallel"), String::from_str("info")));
        modules.push((String::from_str("wezterm_parallel::room"), String::from_str("debug")));
        modules.push((String::from_str("wezterm_parallel::error"), String::from_str("debug")));
        modules.push((String::from_str("wezterm_parallel::process"), String::from_str("info")));
        let r = LogLevel { default: String::from_str("warn"), modules };
        assert(r.modules_view() =~= seq![
            ("wezterm_parallel"@, "info"@),
            ("wezterm_parallel::room"@, "debug"@),
            ("wezterm_parallel::error"@, "debug"@),
            ("wezterm_parallel::process"@, "info"@),
        ]);
        r
    }
}

/// What debugging output is produced.
#[derive(Debug, Clone, Copy)]
pub struct DebugConfig {
    pub enabled: bool,
    pub verbose_errors: bool,
    pub stack_traces: bool,
    pub performance_metrics: bool,
    pub memory_tracking: bool,
}

impl DebugConfig {
    /// The defaults of a build with or without debug assertions.
    pub fn for_build(debug_build: bool) -> (r: Self)
        ensures
            r.enabled == debug_build,
            r.verbose_errors,
            r.stack_traces == debug_build,
            !r.performance_metrics,
            !r.memory_tracking,
    {
        DebugConfig {
            enabled: debug_build,
            verbose_errors: true,
            stack_traces: debug_build,
            performance_metrics: false,
            memory_tracking: false,
        }
    }
}

impl Default for DebugConfig {
    /// The defaults of a release build.
    fn default() -> (r: Self)
        ensures
            !r.enabled,
            r.verbose_errors,
            !r.stack_traces,
            !r.performance_metrics,
            !r.memory_tracking,
    {
        DebugConfig::for_build(false)
    }
}

/// How errors are handled.
#[derive(Debug, Clone)]
pub struct ErrorHandlingConfig {
    pub log_level: LogLevel,
    pub debug: DebugConfig,
    pub auto_recovery: bool,
    pub max_recovery_attempts: u32,
    pub error_reporting: bool,
}

impl Default for ErrorHandlingConfig {
    fn default() -> (r: Self)
        ensures
            r.log_level.default@ == "warn"@,
            r.log_level.modules_view().len() == 4,
            !r.debug.enabled,
            r.debug.verbose_errors,
            r.auto_recovery,
            r.max_recovery_attempts == 3,
            r.error_reporting,
    {
        ErrorHandlingConfig {
            log_level: LogLevel::default(),
            debug: DebugConfig::default(),
            auto_recovery: true,
            max_recovery_attempts: 3,
            error_reporting: true,
        }
    }
}

/// Where an error comes from.
#[derive(Debug, Clone, Copy, PartialEq, Eq, Structural)]
pub enum ErrorType {
    RoomError,
    ProcessError,
    FileError,
    ConfigError,
    NetworkError,
    SystemError,
}

/// How serious an error is, from least to most.
#[derive(Debug, Clone, Copy, PartialEq, Eq, Structural)]
pub enum ErrorSeverity {
    Low,
    Medium,
    High,
    Critical,
}

/// A step that can help after an error.
#[derive(Debug, Clone)]
pub struct RecoveryAction {
    pub description: String,
    pub command: Option<String>,
    /// Whether the step can run without the user.
    pub automatic: bool,
}

/// An error as the user sees it.
#[derive(Debug, Clone)]
pub struct UserError {
    pub error_type: ErrorType,
    pub message_jp: String,
    pub message_en: String,
    pub guidance: String,
    pub recovery_actions: Vec<RecoveryAction>,
    pub error_code: String,
}

/// A recovery action as plain values.
pub struct ActionView {
    pub description: Seq<char>,
    pub command: Option<Seq<char>>,
    pub automatic: bool,
}

/// A user error as plain values.
pub struct UserErrorView {
    pub error_type: ErrorType,
    pub message_jp: Seq<char>,
    pub message_en: Seq<char>,
    pub guidance: Seq<char>,
    pub recovery_actions: Seq<ActionView>,
    pub error_code: Seq<char>,
}

impl View for RecoveryAction {
    type V = ActionView;

    open spec fn view(&self) -> ActionView {
        ActionView {
            description: self.description@,
            command: match self.command {
                Some(c) => Some(c@),
                None => None,
            },
            automatic: self.automatic,
        }
    }
}

pub open spec fn actions_view(v: Seq<RecoveryAction>) -> Seq<ActionView> {
    v.map_values(|a: RecoveryAction| a@)
}

impl View for UserError {
    type V = UserErrorView;

    open spec fn view(&self) -> UserErrorView {
        UserErrorView {
            error_type: self.error_type,
            message_jp: self.message_jp@,
            message_en: self.message_en@,
            guidance: self.guidance@,
            recovery_actions: actions_view(self.recovery_actions@),
            error_code: self.error_code@,
        }
    }
}

pub open spec fn manual(description: Seq<char>) -> ActionView {
    ActionView { description, command: None, automatic: false }
}

pub open spec fn automatic(description: Seq<char>) -> ActionView {
    ActionView { description, command: None, automatic: true }
}

pub open spec fn room_not_found_view(room_name: Seq<char>) -> UserErrorView {
    UserErrorView {
        error_type: ErrorType::RoomError,
        message_jp: "Room '"@ + room_name + "' が見つかりません"@,
        message_en: "Room '"@ + room_name + "' not found"@,
        guidance: "Room名を確認するか、新しいRoomを作成してください"@,
        recovery_actions: seq![
            manual("利用可能なRoom一覧を表示 (Ctrl+Shift+W)"@),
            manual("新しいRoomを作成 (Ctrl+Shift+N)"@),
        ],
        error_code: "ROOM_001"@,
    }
}

pub open spec fn room_creation_failed_view(room_name: Seq<char>, reason: Seq<char>) -> UserErrorView {
    UserErrorView {
        error_type: ErrorType::RoomError,
        message_jp: "Room '"@ + room_name + "' の作成に失敗しました: "@ + reason,
        message_en: "Failed to create room '"@ + room_name + "': "@ + reason,
        guidance: "Room名に使用できない文字が含まれていないか確認してください"@,
        recovery_actions: seq![manual("異なるRoom名で再試行"@)],
        error_code: "ROOM_002"@,
    }
}

pub open spec fn claude_code_startup_failed_view(reason: Seq<char>) -> UserErrorView {
    UserErrorView {
        error_type: ErrorType::ProcessError,
        message_jp: "Assistant CLIの起動に失敗しました: "@ + reason,
        message_en: "Failed to start Assistant CLI: "@ + reason,
        guidance: "Assistant CLIが正しくインストールされているか確認してください"@,
        recovery_actions: seq![
            ActionView {
                description: "Assistant CLIのインストール状況を確認"@,
                command: Some("which assistant-cli"@),
                automatic: false,
            },
            ActionView {
                description: "手動でAssistant CLIを起動"@,
                command: Some("assistant-cli"@),
                automatic: false,
            },
        ],
        error_code: "PROC_001"@,
    }
}

pub open spec fn process_communication_failed_view(process_id: Seq<char>) -> UserErrorView {
    UserErrorView {
        error_type: ErrorType::ProcessError,
        message_jp: "プロセス '"@ + process_id + "' との通信に失敗しました"@,
        message_en: "Failed to communicate with process '"@ + process_id + "'"@,
        guidance: "プロセスが正常に動作しているか確認してください"@,
        recovery_actions: seq![automatic("プロセスを再起動"@)],
        error_code: "PROC_002"@,
    }
}

pub open spec fn config_load_failed_view(file_path: Seq<char>, reason: Seq<char>) -> UserErrorView {
    UserErrorView {
        error_type: ErrorType::ConfigError,
        message_jp: "設定ファイルの読み込みに失敗しました: "@ + file_path + " ("@ + reason + ")"@,
        message_en: "Failed to load config file: "@ + file_path + " ("@ + reason + ")"@,
        guidance: "設定ファイルの形式が正しいか確認してください"@,
        recovery_actions: seq![automatic("デフォルト設定で継続"@), manual("設定ファイルを初期化"@)],
        error_code: "CONF_001"@,
    }
}

pub open spec fn file_operation_failed_view(
    operation: Seq<char>,
    file_path: Seq<char>,
    reason: Seq<char>,
) -> UserErrorView {
    UserErrorView {
        error_type: ErrorType::FileError,
        message_jp: "ファイル操作に失敗しました ("@ + operation + "): "@ + file_path + " - "@
            + reason,
        message_en: "File operation failed ("@ + operation + "): "@ + file_path + " - "@ + reason,
        guidance: "ファイルのアクセス権限と存在を確認してください"@,
        recovery_actions: seq![automatic("ディレクトリを作成"@)],
        error_code: "FILE_001"@,
    }
}

pub open spec fn system_resource_exhausted_view(resource: Seq<char>) -> UserErrorView {
    UserErrorView {
        error_type: ErrorType::SystemError,
        message_jp: "システムリソースが不足しています: "@ + resource,
        message_en: "System resource exhausted: "@ + resource,
        guidance: "システムの負荷を下げるか、不要なプロセスを終了してください"@,
        recovery_actions: seq![automatic("古いプロセスを自動停止"@)],
        error_code: "SYS_001"@,
    }
}

pub open spec fn task_not_found_view(task_id: Seq<char>) -> UserErrorView {
    UserErrorView {
        error_type: ErrorType::ProcessError,
        message_jp: "タスク '"@ + task_id + "' が見つかりません"@,
        message_en: "Task '"@ + task_id + "' not found"@,
        guidance: "タスクIDが正しいか確認するか、タスク一覧を確認してください"@,
        recovery_actions: seq![manual("アクティブなタスク一覧を表示"@)],
        error_code: "TASK_001"@,
    }
}

pub open spec fn task_queue_full_view() -> UserErrorView {
    UserErrorView {
        error_type: ErrorType::ProcessError,
        message_jp: "タスクキューが満杯です"@,
        message_en: "Task queue is full"@,
        guidance: "既存のタスクが完了するまで待つか、タスクをキャンセルしてください"@,
        recovery_actions: seq![automatic("完了済みタスクを自動クリーンアップ"@), manual("古いタスクを停止"@)],
        error_code: "TASK_002"@,
    }
}

pub open spec fn task_timeout_view(task_id: Seq<char>, timeout: Seq<char>) -> UserErrorView {
    UserErrorView {
        error_type: ErrorType::ProcessError,
        message_jp: "タスク '"@ + task_id + "' がタイムアウトしました ("@ + timeout + ")"@,
        message_en: "Task '"@ + task_id + "' timed out ("@ + timeout + ")"@,
        guidance: "タスクの処理時間を確認し、必要に応じてタイムアウト値を調整してください"@,
        recovery_actions: seq![manual("タスクを再実行"@), automatic("タスクをキャンセル"@)],
        error_code: "TASK_003"@,
    }
}

pub open spec fn task_dependency_failed_view(task_id: Seq<char>, dependency: Seq<char>) -> UserErrorView {
    UserErrorView {
        error_type: ErrorType::ProcessError,
        message_jp: "タスク '"@ + task_id + "' の依存関係 '"@ + dependency + "' が満たされていません"@,
        message_en: "Task '"@ + task_id + "' dependency '"@ + dependency + "' not met"@,
        guidance: "依存するタスクまたはリソースが利用可能か確認してください"@,
        recovery_actions: seq![automatic("依存関係を自動解決"@)],
        error_code: "TASK_004"@,
    }
}

/// How serious an error of each type is.
pub open spec fn severity_of(t: ErrorType) -> ErrorSeverity {
    match t {
        ErrorType::SystemError => ErrorSeverity::Critical,
        ErrorType::ProcessError => ErrorSeverity::High,
        ErrorType::RoomError | ErrorType::ConfigError => ErrorSeverity::Medium,
        ErrorType::FileError | ErrorType::NetworkError => ErrorSeverity::Low,
    }
}

/// The name of an error type, as `{:?}` prints it.
pub open spec fn error_type_name(t: ErrorType) -> Seq<char> {
    match t {
        ErrorType::RoomError => "RoomError"@,
        ErrorType::ProcessError => "ProcessError"@,
        ErrorType::FileError => "FileError"@,
        ErrorType::ConfigError => "ConfigError"@,
        ErrorType::NetworkError => "NetworkError"@,
        ErrorType::SystemError => "SystemError"@,
    }
}

/// The name of a severity, as `{:?}` prints it.
pub open spec fn severity_name(s: ErrorSeverity) -> Seq<char> {
    match s {
        ErrorSeverity::Low => "Low"@,
        ErrorSeverity::Medium => "Medium"@,
        ErrorSeverity::High => "High"@,
        ErrorSeverity::Critical => "Critical"@,
    }
}

/// Whether some action runs by itself.
pub open spec fn has_automatic(actions: Seq<ActionView>) -> bool {
    exists|i: int| 0 <= i < actions.len() && (#[trigger] actions[i]).automatic
}

/// The numbered list of actions of the debugging text, from action `from` on.
pub open spec fn debug_action_lines(actions: Seq<ActionView>, from: int) -> Seq<char>
    decreases actions.len() - from,
{
    if from >= actions.len() || from < 0 {
        Seq::empty()
    } else {
        "\n  "@ + decimal((from + 1) as nat) + ". "@ + actions[from].description + " (自動: "@
            + bool_text(actions[from].automatic) + ")"@ + debug_action_lines(actions, from + 1)
    }
}

/// The error with the details that the debugging settings ask for.
pub open spec fn debug_text(e: UserErrorView, config: DebugConfig) -> Seq<char> {
    "["@ + e.error_code + "] "@ + e.message_jp + (if config.verbose_errors {
        "\n英語メッセージ: "@ + e.message_en + "\nエラータイプ: "@ + error_type_name(e.error_type)
            + "\n重要度: "@ + severity_name(severity_of(e.error_type))
    } else {
        Seq::empty()
    }) + (if config.stack_traces && config.enabled {
        "\nスタックトレース: (実装中)"@
    } else {
        Seq::empty()
    }) + "\nガイダンス: "@ + e.guidance + (if e.recovery_actions.len() > 0 {
        "\n回復アクション:"@ + debug_action_lines(e.recovery_actions, 0)
    } else {
        Seq::empty()
    })
}

/// A length of time, in whole seconds and the nanoseconds beyond them.
#[derive(Debug, Clone, Copy)]
pub struct TimeSpan {
    secs: u64,
    nanos: u32,
}

/// The text that `{:?}` prints for a `std::time::Duration` of `secs` seconds and
/// `nanos` nanoseconds.
pub uninterp spec fn duration_debug_text(secs: u64, nanos: u32) -> Seq<char>;

/// Formats a duration with `{:?}`, through `std::time::Duration`'s `Debug`; the
/// text is claimed to be a function of the two numbers alone, and nothing more.
#[verifier::external_body]
fn duration_debug(secs: u64, nanos: u32) -> (s: String)
    requires
        nanos < 1_000_000_000,
    ensures
        s@ == duration_debug_text(secs, nanos),
{
    format!("{:?}", std::time::Duration::new(secs, nanos))
}

impl TimeSpan {
    #[verifier::type_invariant]
    spec fn well_formed(self) -> bool {
        self.nanos < 1_000_000_000
    }

    pub closed spec fn secs_spec(self) -> u64 {
        self.secs
    }

    pub closed spec fn nanos_spec(self) -> u32 {
        self.nanos
    }

    pub fn from_secs(secs: u64) -> (r: Self)
        ensures
            r.secs_spec() == secs,
            r.nanos_spec() == 0,
    {
        TimeSpan { secs, nanos: 0 }
    }

    /// The span in nanoseconds.
    pub open spec fn total_nanos(self) -> nat {
        self.secs_spec() as nat * 1_000_000_000 + self.nanos_spec() as nat
    }

    pub fn from_nanos(nanos: u64) -> (r: Self)
        ensures
            r.secs_spec() == nanos / 1_000_000_000,
            r.nanos_spec() == nanos % 1_000_000_000,
            r.total_nanos() == nanos,
    {
        TimeSpan { secs: nanos / 1_000_000_000, nanos: (nanos % 1_000_000_000) as u32 }
    }

    /// Whether the span is longer than `other`.
    pub fn longer_than(&self, other: &TimeSpan) -> (b: bool)
        ensures
            b == (self.total_nanos() > other.total_nanos()),
    {
        let a: u128 = self.secs as u128 * 1_000_000_000 + self.nanos as u128;
        let b: u128 = other.secs as u128 * 1_000_000_000 + other.nanos as u128;
        a > b
    }

    /// Whether the span is longer than `millis` milliseconds.
    pub fn longer_than_millis(&self, millis: u64) -> (b: bool)
        ensures
            b == (self.total_nanos() > millis as nat * 1_000_000),
    {
        let total: u128 = self.secs as u128 * 1_000_000_000 + self.nanos as u128;
        total > millis as u128 * 1_000_000
    }

    /// The span in nanoseconds, or `None` when that does not fit in a `u64`.
    pub fn checked_nanos(&self) -> (r: Option<u64>)
        ensures
            r == if self.total_nanos() <= u64::MAX {
                Some(self.total_nanos() as u64)
            } else {
                None::<u64>
            },
    {
        let total: u128 = self.secs as u128 * 1_000_000_000 + self.nanos as u128;
        if total <= u64::MAX as u128 {
            Some(total as u64)
        } else {
            None
        }
    }

    /// The span in nanoseconds, when it fits in a `u64`.
    pub fn as_nanos_u64(&self) -> (n: u64)
        requires
            self.total_nanos() <= u64::MAX,
        ensures
            n == self.total_nanos(),
    {
        proof {
            use_type_invariant(self);
        }
        self.secs * 1_000_000_000 + self.nanos as u64
    }

    pub fn from_millis(millis: u64) -> (r: Self)
        ensures
            r.secs_spec() == millis / 1000,
            r.nanos_spec() == (millis % 1000) * 1_000_000,
    {
        TimeSpan { secs: millis / 1000, nanos: ((millis % 1000) as u32) * 1_000_000 }
    }

    /// The text `{:?}` prints for this span.
    pub fn debug_text(&self) -> (s: String)
        ensures
            s@ == duration_debug_text(self.secs_spec(), self.nanos_spec()),
    {
        proof {
            use_type_invariant(self);
        }
        duration_debug(self.secs, self.nanos)
    }
}

fn action(description: &str, command: Option<&str>, automatic: bool) -> (a: RecoveryAction)
    ensures
        a@ == (ActionView {
            description: description@,
            command: match command {
                Some(c) => Some(c@),
                None => None,
            },
            automatic,
        }),
{
    RecoveryAction {
        description: String::from_str(description),
        command: match command {
            Some(c) => Some(String::from_str(c)),
            None => None,
        },
        automatic,
    }
}

fn join3(a: &str, b: &str, c: &str) -> (s: String)
    ensures
        s@ == a@ + b@ + c@,
{
    let mut s = String::from_str(a);
    s.append(b);
    s.append(c);
    s
}

fn join5(a: &str, b: &str, c: &str, d: &str, e: &str) -> (s: String)
    ensures
        s@ == a@ + b@ + c@ + d@ + e@,
{
    let mut s = String::from_str(a);
    s.append(b);
    s.append(c);
    s.append(d);
    s.append(e);
    s
}

fn join6(a: &str, b: &str, c: &str, d: &str, e: &str, f: &str) -> (s: String)
    ensures
        s@ == a@ + b@ + c@ + d@ + e@ + f@,
{
    let mut s = join5(a, b, c, d, e);
    s.append(f);
    s
}

impl UserError {
    pub fn room_not_found(room_name: &str) -> (e: Self)
        ensures
            e@ == room_not_found_view(room_name@),
    {
        let actions = vec![
            action("利用可能なRoom一覧を表示 (Ctrl+Shift+W)", None, false),
            action("新しいRoomを作成 (Ctrl+Shift+N)", None, false),
        ];
        let e = UserError {
            error_type: ErrorType::RoomError,
            message_jp: join3("Room '", room_name, "' が見つかりません"),
            message_en: join3("Room '", room_name, "' not found"),
            guidance: String::from_str("Room名を確認するか、新しいRoomを作成してください"),
            recovery_actions: actions,
            error_code: String::from_str("ROOM_001"),
        };
        assert(e@.recovery_actions =~= room_not_found_view(room_name@).recovery_actions);
        e
    }

    pub fn room_creation_failed(room_name: &str, reason: &str) -> (e: Self)
        ensures
            e@ == room_creation_failed_view(room_name@, reason@),
    {
        let actions = vec![action("異なるRoom名で再試行", None, false)];
        let e = UserError {
            error_type: ErrorType::RoomError,
            message_jp: join5("Room '", room_name, "' の作成に失敗しました: ", reason, ""),
            message_en: join5("Failed to create room '", room_name, "': ", reason, ""),
            guidance: String::from_str("Room名に使用できない文字が含まれていないか確認してください"),
            recovery_actions: actions,
            error_code: String::from_str("ROOM_002"),
        };
        proof {
            reveal_strlit("");
        }
        assert(e@.message_jp =~= room_creation_failed_view(room_name@, reason@).message_jp);
        assert(e@.message_en =~= room_creation_failed_view(room_name@, reason@).message_en);
        assert(e@.recovery_actions =~= room_creation_failed_view(
            room_name@,
            reason@,
        ).recovery_actions);
        e
    }

    pub fn claude_code_startup_failed(reason: &str) -> (e: Self)
        ensures
            e@ == claude_code_startup_failed_view(reason@),
    {
        let actions = vec![
            action("Assistant CLIのインストール状況を確認", Some("which assistant-cli"), false),
            action("手動でAssistant CLIを起動", Some("assistant-cli"), false),
        ];
        let mut jp = String::from_str("Assistant CLIの起動に失敗しました: ");
        jp.append(reason);
        let mut en = String::from_str("Failed to start Assistant CLI: ");
        en.append(reason);
        let e = UserError {
            error_type: ErrorType::ProcessError,
            message_jp: jp,
            message_en: en,
            guidance: String::from_str("Assistant CLIが正しくインストールされているか確認してください"),
            recovery_actions: actions,
            error_code: String::from_str("PROC_001"),
        };
        assert(e@.recovery_actions =~= claude_code_startup_failed_view(reason@).recovery_actions);
        e
    }

    pub fn process_communication_failed(process_id: &str) -> (e: Self)
        ensures
            e@ == process_communication_failed_view(process_id@),
    {
        let actions = vec![action("プロセスを再起動", None, true)];
        let e = UserError {
            error_type: ErrorType::ProcessError,
            message_jp: join3("プロセス '", process_id, "' との通信に失敗しました"),
            message_en: join3("Failed to communicate with process '", process_id, "'"),
            guidance: String::from_str("プロセスが正常に動作しているか確認してください"),
            recovery_actions: actions,
            error_code: String::from_str("PROC_002"),
        };
        assert(e@.recovery_actions =~= process_communication_failed_view(
            process_id@,
        ).recovery_actions);
        e
    }

    pub fn config_load_failed(file_path: &str, reason: &str) -> (e: Self)
        ensures
            e@ == config_load_failed_view(file_path@, reason@),
    {
        let actions = vec![
            action("デフォルト設定で継続", None, true),
            action("設定ファイルを初期化", None, false),
        ];
        let e = UserError {
            error_type: ErrorType::ConfigError,
            message_jp: join5("設定ファイルの読み込みに失敗しました: ", file_path, " (", reason, ")"),
            message_en: join5("Failed to load config file: ", file_path, " (", reason, ")"),
            guidance: String::from_str("設定ファイルの形式が正しいか確認してください"),
            recovery_actions: actions,
            error_code: String::from_str("CONF_001"),
        };
        assert(e@.recovery_actions =~= config_load_failed_view(file_path@, reason@).recovery_actions);
        e
    }

    pub fn file_operation_failed(operation: &str, file_path: &str, reason: &str) -> (e: Self)
        ensures
            e@ == file_operation_failed_view(operation@, file_path@, reason@),
    {
        let actions = vec![action("ディレクトリを作成", None, true)];
        let e = UserError {
            error_type: ErrorType::FileError,
            message_jp: join6("ファイル操作に失敗しました (", operation, "): ", file_path, " - ", reason),
            message_en: join6("File operation failed (", operation, "): ", file_path, " - ", reason),
            guidance: String::from_str("ファイルのアクセス権限と存在を確認してください"),
            recovery_actions: actions,
            error_code: String::from_str("FILE_001"),
        };
        assert(e@.recovery_actions =~= file_operation_failed_view(
            operation@,
            file_path@,
            reason@,
        ).recovery_actions);
        e
    }

    pub fn system_resource_exhausted(resource: &str) -> (e: Self)
        ensures
            e@ == system_resource_exhausted_view(resource@),
    {
        let actions = vec![action("古いプロセスを自動停止", None, true)];
        let mut jp = String::from_str("システムリソースが不足しています: ");
        jp.append(resource);
        let mut en = String::from_str("System resource exhausted: ");
        en.append(resource);
        let e = UserError {
            error_type: ErrorType::SystemError,
            message_jp: jp,
            message_en: en,
            guidance: String::from_str("システムの負荷を下げるか、不要なプロセスを終了してください"),
            recovery_actions: actions,
            error_code: String::from_str("SYS_001"),
        };
        assert(e@.recovery_actions =~= system_resource_exhausted_view(resource@).recovery_actions);
        e
    }

    pub fn task_not_found(task_id: &str) -> (e: Self)
        ensures
            e@ == task_not_found_view(task_id@),
    {
        let actions = vec![action("アクティブなタスク一覧を表示", None, false)];
        let e = UserError {
            error_type: ErrorType::ProcessError,
            message_jp: join3("タスク '", task_id, "' が見つかりません"),
            message_en: join3("Task '", task_id, "' not found"),
            guidance: String::from_str("タスクIDが正しいか確認するか、タスク一覧を確認してください"),
            recovery_actions: actions,
            error_code: String::from_str("TASK_001"),
        };
        assert(e@.recovery_actions =~= task_not_found_view(task_id@).recovery_actions);
        e
    }

    pub fn task_queue_full() -> (e: Self)
        ensures
            e@ == task_queue_full_view(),
    {
        let actions = vec![
            action("完了済みタスクを自動クリーンアップ", None, true),
            action("古いタスクを停止", None, false),
        ];
        let e = UserError {
            error_type: ErrorType::ProcessError,
            message_jp: String::from_str("タスクキューが満杯です"),
            message_en: String::from_str("Task queue is full"),
            guidance: String::from_str("既存のタスクが完了するまで待つか、タスクをキャンセルしてください"),
            recovery_actions: actions,
            error_code: String::from_str("TASK_002"),
        };
        assert(e@.recovery_actions =~= task_queue_full_view().recovery_actions);
        e
    }

    pub fn task_timeout(task_id: &str, timeout_duration: TimeSpan) -> (e: Self)
        ensures
            e@ == task_timeout_view(
                task_id@,
                duration_debug_text(timeout_duration.secs_spec(), timeout_duration.nanos_spec()),
            ),
    {
        let actions = vec![action("タスクを再実行", None, false), action("タスクをキャンセル", None, true)];
        let t = timeout_duration.debug_text();
        let e = UserError {
            error_type: ErrorType::ProcessError,
            message_jp: join5("タスク '", task_id, "' がタイムアウトしました (", t.as_str(), ")"),
            message_en: join5("Task '", task_id, "' timed out (", t.as_str(), ")"),
            guidance: String::from_str("タスクの処理時間を確認し、必要に応じてタイムアウト値を調整してください"),
            recovery_actions: actions,
            error_code: String::from_str("TASK_003"),
        };
        assert(e@.recovery_actions =~= task_timeout_view(task_id@, t@).recovery_actions);
        e
    }

    pub fn task_dependency_failed(task_id: &str, dependency: &str) -> (e: Self)
        ensures
            e@ == task_dependency_failed_view(task_id@, dependency@),
    {
        let actions = vec![action("依存関係を自動解決", None, true)];
        let e = UserError {
            error_type: ErrorType::ProcessError,
            message_jp: join5("タスク '", task_id, "' の依存関係 '", dependency, "' が満たされていません"),
            message_en: join5("Task '", task_id, "' dependency '", dependency, "' not met"),
            guidance: String::from_str("依存するタスクまたはリソースが利用可能か確認してください"),
            recovery_actions: actions,
            error_code: String::from_str("TASK_004"),
        };
        assert(e@.recovery_actions =~= task_dependency_failed_view(
            task_id@,
            dependency@,
        ).recovery_actions);
        e
    }

    /// How serious the error is.
    pub fn severity(&self) -> (s: ErrorSeverity)
        ensures
            s == severity_of(self.error_type),
    {
        match self.error_type {
            ErrorType::SystemError => ErrorSeverity::Critical,
            ErrorType::ProcessError => ErrorSeverity::High,
            ErrorType::RoomError | ErrorType::ConfigError => ErrorSeverity::Medium,
            ErrorType::FileError | ErrorType::NetworkError => ErrorSeverity::Low,
        }
    }

    /// Whether some recovery action can run by itself.
    pub fn execute_auto_recovery(&self) -> (b: bool)
        ensures
            b == has_automatic(self@.recovery_actions),
    {
        let mut i: usize = 0;
        while i < self.recovery_actions.len()
            invariant
                0 <= i <= self.recovery_actions@.len(),
                forall|j: int| 0 <= j < i ==> !(#[trigger] self.recovery_actions@[j]).automatic,
            decreases self.recovery_actions.len() - i,
        {
            if self.recovery_actions[i].automatic {
                assert(self@.recovery_actions[i as int].automatic);
                return true;
            }
            i = i + 1;
        }
        assert forall|j: int| 0 <= j < self@.recovery_actions.len() implies !(
        #[trigger] self@.recovery_actions[j]).automatic by {
            assert(self@.recovery_actions[j] == self.recovery_actions@[j]@);
        }
        false
    }

    /// `[code] message` as the error is displayed.
    pub fn to_string(&self) -> (s: String)
        ensures
            s@ == "["@ + self.error_code@ + "] "@ + self.message_jp@,
    {
        let mut s = join3("[", self.error_code.as_str(), "] ");
        s.append(self.message_jp.as_str());
        s
    }

    /// The error with the details that the debugging settings ask for.
    pub fn with_debug_info(&self, config: &DebugConfig) -> (s: String)
        ensures
            s@ == debug_text(self@, *config),
    {
        let mut message = join5("[", self.error_code.as_str(), "] ", self.message_jp.as_str(), "");
        proof {
            reveal_strlit("");
        }
        let ghost head = message@;
        if config.verbose_errors {
            message.append("\n英語メッセージ: ");
            message.append(self.message_en.as_str());
            message.append("\nエラータイプ: ");
            message.append(error_type_str(self.error_type));
            message.append("\n重要度: ");
            message.append(severity_str(self.severity()));
        }
        let ghost after_verbose = message@;
        if config.stack_traces && config.enabled {
            message.append("\nスタックトレース: (実装中)");
        }
        let ghost after_trace = message@;
        message.append("\nガイダンス: ");
        message.append(self.guidance.as_str());
        let ghost after_guidance = message@;
        if self.recovery_actions.len() > 0 {
            message.append("\n回復アクション:");
            let ghost before_list = message@;
            let mut i: usize = 0;
            while i < self.recovery_actions.len()
                invariant
                    0 <= i <= self.recovery_actions@.len(),
                    message@ + debug_action_lines(self@.recovery_actions, i as int) == before_list
                        + debug_action_lines(self@.recovery_actions, 0),
                decreases self.recovery_actions.len() - i,
            {
                let a = &self.recovery_actions[i];
                let ghost av = self@.recovery_actions[i as int];
                assert(av == a@);
                let ghost prev = message@;
                message.append("\n  ");
                push_decimal(&mut message, (i as u64) + 1);
                message.append(". ");
                message.append(a.description.as_str());
                message.append(" (自動: ");
                push_bool(&mut message, a.automatic);
                message.append(")");
                assert(message@ =~= prev + ("\n  "@ + decimal((i + 1) as nat) + ". "@
                    + av.description + " (自動: "@ + bool_text(av.automatic) + ")"@));
                i = i + 1;
            }
            assert(debug_action_lines(self@.recovery_actions, i as int) =~= Seq::empty());
        }
        assert(message@ =~= debug_text(self@, *config));
        message
    }

    /// The Japanese message with the time taken and the memory used, in whole MB.
    pub fn with_performance_info(&self, duration: TimeSpan, memory_usage: u64) -> (s: String)
        ensures
            s@ == self.message_jp@ + "\n[パフォーマンス] 処理時間: "@ + duration_debug_text(
                duration.secs_spec(),
                duration.nanos_spec(),
            ) + ", メモリ使用量: "@ + decimal((memory_usage / 1024 / 1024) as nat) + "MB"@,
    {
        let t = duration.debug_text();
        let mut s = join5(self.message_jp.as_str(), "\n[パフォーマンス] 処理時間: ", t.as_str(), ", メモリ使用量: ", "");
        proof {
            reveal_strlit("");
        }
        push_decimal(&mut s, memory_usage / 1024 / 1024);
        s.append("MB");
        s
    }
}

fn error_type_str(t: ErrorType) -> (s: &'static str)
    ensures
        s@ == error_type_name(t),
{
    match t {
        ErrorType::RoomError => "RoomError",
        ErrorType::ProcessError => "ProcessError",
        ErrorType::FileError => "FileError",
        ErrorType::ConfigError => "ConfigError",
        ErrorType::NetworkError => "NetworkError",
        ErrorType::SystemError => "SystemError",
    }
}

fn severity_str(s: ErrorSeverity) -> (r: &'static str)
    ensures
        r@ == severity_name(s),
{
    match s {
        ErrorSeverity::Low => "Low",
        ErrorSeverity::Medium => "Medium",
        ErrorSeverity::High => "High",
        ErrorSeverity::Critical => "Critical",
    }
}

/// A failure of the I/O library.
#[verifier::external_type_specification]
#[verifier::external_body]
pub struct ExIoError(std::io::Error);

/// The text of an I/O error, through its `Display`; it may depend on the system's
/// error messages, so nothing is claimed of it.
#[verifier::external_body]
fn io_error_text(e: &std::io::Error) -> (s: String) {
    e.to_string()
}

/// Runs a file operation and turns its failure into a `FILE_001` error that
/// names the operation, the file and the I/O error's text.
pub fn safe_file_operation<F, T>(operation: &str, file_path: &str, f: F) -> (r: Result<T, UserError>) where
    F: FnOnce() -> Result<T, std::io::Error>,

    requires
        f.requires(()),
    ensures
        exists|out: Result<T, std::io::Error>|
            f.ensures((), out) && match (out, r) {
                (Ok(v), Ok(w)) => v == w,
                (Err(_), Err(e)) => exists|reason: Seq<char>|
                    e@ == file_operation_failed_view(operation@, file_path@, reason),
                _ => false,
            },
{
    match f() {
        Ok(result) => Ok(result),
        Err(e) => {
            let reason = io_error_text(&e);
            let err = UserError::file_operation_failed(operation, file_path, reason.as_str());
            assert(err@ == file_operation_failed_view(operation@, file_path@, reason@));
            Err(err)
        },
    }
}

/// Runs a process operation and turns its failure into a `PROC_002` error for
/// that process.
pub fn safe_process_operation<F, T, E>(process_id: &str, f: F) -> (r: Result<T, UserError>) where
    F: FnOnce() -> Result<T, E>,

    requires
        f.requires(()),
    ensures
        exists|out: Result<T, E>|
            f.ensures((), out) && match (out, r) {
                (Ok(v), Ok(w)) => v == w,
                (Err(_), Err(e)) => e@ == process_communication_failed_view(process_id@),
                _ => false,
            },
{
    match f() {
        Ok(result) => Ok(result),
        Err(_) => Err(UserError::process_communication_failed(process_id)),
    }
}

/// Runs an operation that takes a lock and turns its failure into a `SYS_001`
/// error naming the lock contention.
pub fn safe_lock_operation<T, F, R>(operation_name: &str, f: F) -> (r: Result<R, UserError>) where
    F: FnOnce() -> Result<R, T>,

    requires
        f.requires(()),
    ensures
        exists|out: Result<R, T>|
            f.ensures((), out) && match (out, r) {
                (Ok(v), Ok(w)) => v == w,
                (Err(_), Err(e)) => e@ == system_resource_exhausted_view(
                    "Lock contention: "@ + operation_name@,
                ),
                _ => false,
            },
{
    match f() {
        Ok(result) => Ok(result),
        Err(_) => {
            let mut m = String::from_str("Lock contention: ");
            m.append(operation_name);
            Err(UserError::system_resource_exhausted(m.as_str()))
        },
    }
}

} // verus!
