//! Build-tool state: platforms, GPU backends, tool detection, tabs and
//! log buffers for the interactive console around the engine.
use vstd::prelude::*;

use crate::project::ProjectKind;

verus! {

#[derive(Debug, Clone, Copy, PartialEq, Eq, Structural)]
pub enum Platform {
    Linux,
    MacOS,
    Windows,
}

impl Platform {
    /// Platform this library was built for; this build targets Linux.
    pub fn detect() -> (r: Self)
        ensures
            r == Platform::Linux,
    {
        Platform::Linux
    }

    pub fn supports_metal(&self) -> (r: bool)
        ensures
            r == (*self == Platform::MacOS),
    {
        matches!(self, Platform::MacOS)
    }

    pub fn supports_vulkan(&self) -> (r: bool)
        ensures
            r == (*self != Platform::MacOS),
    {
        !matches!(self, Platform::MacOS)
    }

    /// What `label` returns for each platform.
    pub open spec fn label_spec(&self) -> Seq<char> {
        match self {
            Platform::Linux => "Linux"@,
            Platform::MacOS => "macOS"@,
            Platform::Windows => "Windows"@,
        }
    }

    pub fn label(&self) -> (r: &'static str)
        ensures
            r@ == self.label_spec(),
    {
        match self {
            Platform::Linux => "Linux",
            Platform::MacOS => "macOS",
            Platform::Windows => "Windows",
        }
    }
}

#[derive(Debug, Clone, PartialEq, Eq)]
pub enum ToolStatus {
    Found { version: String, path: String },
    NotFound,
}

impl ToolStatus {
    pub fn is_available(&self) -> (r: bool)
        ensures
            r == (self matches ToolStatus::Found { .. }),
    {
        matches!(self, ToolStatus::Found { .. })
    }
}

#[derive(Debug, Clone, PartialEq, Eq, Structural)]
pub enum LibraryStatus {
    Found,
    NotFound,
    Unknown,
}

#[derive(Debug, Clone)]
pub struct ToolSet {
    pub julia: ToolStatus,
    pub cargo_tool: ToolStatus,
    pub swift: ToolStatus,
    pub wasm_pack: ToolStatus,
    pub vulkaninfo: ToolStatus,
    pub glfw: LibraryStatus,
    pub opengl_dev: LibraryStatus,
}

impl Default for ToolSet {
    fn default() -> (r: Self)
        ensures
            r.julia == ToolStatus::NotFound,
            r.cargo_tool == ToolStatus::NotFound,
            r.swift == ToolStatus::NotFound,
            r.wasm_pack == ToolStatus::NotFound,
            r.vulkaninfo == ToolStatus::NotFound,
            r.glfw == LibraryStatus::Unknown,
            r.opengl_dev == LibraryStatus::Unknown,
    {
        ToolSet {
            julia: ToolStatus::NotFound,
            cargo_tool: ToolStatus::NotFound,
            swift: ToolStatus::NotFound,
            wasm_pack: ToolStatus::NotFound,
            vulkaninfo: ToolStatus::NotFound,
            glfw: LibraryStatus::Unknown,
            opengl_dev: LibraryStatus::Unknown,
        }
    }
}

#[derive(Debug, Clone, Copy, PartialEq, Eq, Hash, Structural)]
pub enum Backend {
    OpenGL,
    Metal,
    Vulkan,
    WebGPU,
    WasmExport,
}

impl Backend {
    /// What `label` returns for each backend.
    pub open spec fn label_spec(&self) -> Seq<char> {
        match self {
            Backend::OpenGL => "OpenGL"@,
            Backend::Metal => "Metal"@,
            Backend::Vulkan => "Vulkan"@,
            Backend::WebGPU => "WebGPU"@,
            Backend::WasmExport => "WASM Export"@,
        }
    }

    pub fn label(&self) -> (r: &'static str)
        ensures
            r@ == self.label_spec(),
    {
        match self {
            Backend::OpenGL => "OpenGL",
            Backend::Metal => "Metal",
            Backend::Vulkan => "Vulkan",
            Backend::WebGPU => "WebGPU",
            Backend::WasmExport => "WASM Export",
        }
    }

    /// Backends usable on a platform: OpenGL everywhere, Metal only where
    /// supported, Vulkan everywhere Metal is not, WebGPU and the WASM
    /// export target everywhere.
    pub open spec fn available_spec(platform: Platform) -> Seq<Backend> {
        if platform == Platform::MacOS {
            seq![Backend::OpenGL, Backend::Metal, Backend::WebGPU, Backend::WasmExport]
        } else {
            seq![Backend::OpenGL, Backend::Vulkan, Backend::WebGPU, Backend::WasmExport]
        }
    }

    pub fn available_on(platform: Platform) -> (r: Vec<Backend>)
        ensures
            r@ == Self::available_spec(platform),
    {
        let mut v: Vec<Backend> = Vec::new();
        v.push(Backend::OpenGL);
        if platform.supports_metal() {
            v.push(Backend::Metal);
        }
        if platform.supports_vulkan() {
            v.push(Backend::Vulkan);
        }
        v.push(Backend::WebGPU);
        v.push(Backend::WasmExport);
        proof {
            assert(v@ =~= Self::available_spec(platform));
        }
        v
    }

    pub fn needs_build(&self) -> (r: bool)
        ensures
            r == (*self == Backend::Metal || *self == Backend::WebGPU || *self
                == Backend::WasmExport),
    {
        matches!(self, Backend::Metal | Backend::WebGPU | Backend::WasmExport)
    }
}

#[derive(Debug, Clone, PartialEq, Eq)]
pub enum BuildStatus {
    NotNeeded,
    NotBuilt,
    Built { artifact_path: String, modified: Option<String> },
    Building,
    BuildFailed { exit_code: Option<i32> },
}

#[derive(Debug, Clone)]
pub struct BackendState {
    pub backend: Backend,
    pub build_status: BuildStatus,
    pub deps_satisfied: bool,
}

#[derive(Debug, Clone)]
pub struct ExampleEntry {
    pub filename: String,
    pub path: String,
    pub description: String,
    pub required_backend: Option<Backend>,
}

#[derive(Debug, Clone, PartialEq)]
pub enum ProcessStatus {
    Idle,
    Running,
    Finished { exit_code: Option<i32> },
    Failed { error: String },
}

/// One captured line of build or run output. The timestamp is kept as
/// plain milliseconds since the Unix epoch.
#[derive(Debug, Clone)]
pub struct LogLine {
    pub timestamp: i64,
    pub text: String,
    pub is_stderr: bool,
}

/// Relies on `std::time::SystemTime::now` for the wall-clock time, read
/// as whole milliseconds since the Unix epoch. Total by construction: a
/// clock before the epoch or beyond the representable range reads as
/// zero or saturates, so only non-negative values come back; nothing
/// more is assumed of them.
#[verifier::external_body]
fn now_millis() -> (r: i64)
    ensures
        r >= 0,
{
    match std::time::SystemTime::now().duration_since(std::time::UNIX_EPOCH) {
        Ok(d) => i64::try_from(d.as_millis()).unwrap_or(i64::MAX),
        Err(_) => 0,
    }
}

/// Scrollback buffer of log lines with a capacity cap and an auto-scroll
/// cursor.
pub struct LogBuffer {
    pub lines: Vec<LogLine>,
    pub scroll_offset: usize,
    pub auto_scroll: bool,
    pub max_lines: usize,
}

impl LogBuffer {
    /// Capacity cap this buffer was created with.
    pub open spec fn max_lines_spec(&self) -> usize {
        self.max_lines
    }

    /// The cap is positive and the line count never exceeds it.
    pub open spec fn wf(&self) -> bool {
        &&& self.max_lines_spec() >= 1
        &&& self.lines@.len() <= self.max_lines_spec()
    }

    pub fn new(max_lines: usize) -> (r: Self)
        requires
            max_lines >= 1,
        ensures
            r.wf(),
            r.lines@.len() == 0,
            r.scroll_offset == 0,
            r.auto_scroll,
            r.max_lines_spec() == max_lines,
    {
        LogBuffer { lines: Vec::new(), scroll_offset: 0, auto_scroll: true, max_lines }
    }

    /// Append a line, evicting the oldest line once the cap is reached;
    /// with auto-scroll on, the cursor follows the newest line.
    pub fn push(&mut self, text: String, is_stderr: bool)
        requires
            old(self).wf(),
        ensures
            final(self).wf(),
            final(self).max_lines_spec() == old(self).max_lines_spec(),
            ({
                let kept = if old(self).lines@.len() >= old(self).max_lines_spec() {
                    old(self).lines@.drop_first()
                } else {
                    old(self).lines@
                };
                &&& final(self).lines@.len() == kept.len() + 1
                &&& final(self).lines@.drop_last() == kept
                &&& final(self).lines@.last().text@ == text@
                &&& final(self).lines@.last().is_stderr == is_stderr
                &&& final(self).lines@.last().timestamp >= 0
            }),
            final(self).auto_scroll == old(self).auto_scroll,
            old(self).auto_scroll ==> final(self).scroll_offset == final(self).lines@.len() - 1,
    {
        let evict = self.lines.len() >= self.max_lines;
        if evict {
            self.lines.remove(0);
            self.scroll_offset = self.scroll_offset.saturating_sub(1);
        }
        let line = LogLine { timestamp: now_millis(), text, is_stderr };
        self.lines.push(line);
        proof {
            assert(self.lines@.drop_last() =~= if old(self).lines@.len() >= old(
                self,
            ).max_lines_spec() {
                old(self).lines@.drop_first()
            } else {
                old(self).lines@
            });
        }
        if self.auto_scroll {
            self.scroll_to_bottom();
        }
    }

    /// Move the cursor to the newest line.
    pub fn scroll_to_bottom(&mut self)
        ensures
            final(self).lines@ == old(self).lines@,
            final(self).auto_scroll == old(self).auto_scroll,
            final(self).max_lines_spec() == old(self).max_lines_spec(),
            final(self).scroll_offset == if old(self).lines@.len() > 0 {
                old(self).lines@.len() - 1
            } else {
                0int
            },
    {
        self.scroll_offset = self.lines.len().saturating_sub(1);
    }

    /// Drop every line and reset the cursor.
    pub fn clear(&mut self)
        requires
            old(self).wf(),
        ensures
            final(self).wf(),
            final(self).lines@.len() == 0,
            final(self).scroll_offset == 0,
            final(self).auto_scroll == old(self).auto_scroll,
            final(self).max_lines_spec() == old(self).max_lines_spec(),
    {
        self.lines.clear();
        self.scroll_offset = 0;
    }

    /// Scroll towards older lines and pin the view there.
    pub fn scroll_up(&mut self, amount: usize)
        ensures
            final(self).lines@ == old(self).lines@,
            final(self).max_lines_spec() == old(self).max_lines_spec(),
            final(self).scroll_offset == if old(self).scroll_offset >= amount {
                old(self).scroll_offset - amount
            } else {
                0int
            },
            !final(self).auto_scroll,
    {
        self.scroll_offset = self.scroll_offset.saturating_sub(amount);
        self.auto_scroll = false;
    }

    /// Scroll towards newer lines, clamped to the newest; reaching it
    /// re-enables auto-scroll.
    pub fn scroll_down(&mut self, amount: usize)
        requires
            old(self).scroll_offset + amount <= usize::MAX,
        ensures
            final(self).lines@ == old(self).lines@,
            final(self).max_lines_spec() == old(self).max_lines_spec(),
            ({
                let bottom: int = if old(self).lines@.len() > 0 {
                    old(self).lines@.len() - 1
                } else {
                    0
                };
                &&& final(self).scroll_offset == if old(self).scroll_offset + amount <= bottom {
                    old(self).scroll_offset + amount
                } else {
                    bottom
                }
                &&& final(self).auto_scroll == (old(self).auto_scroll || final(self).scroll_offset
                    >= bottom)
            }),
    {
        let bottom = self.lines.len().saturating_sub(1);
        let target = self.scroll_offset + amount;
        self.scroll_offset = if target < bottom {
            target
        } else {
            bottom
        };
        if self.scroll_offset >= bottom {
            self.auto_scroll = true;
        }
    }

    /// Scroll to the oldest line and pin the view there.
    pub fn scroll_to_top(&mut self)
        ensures
            final(self).lines@ == old(self).lines@,
            final(self).max_lines_spec() == old(self).max_lines_spec(),
            final(self).scroll_offset == 0,
            !final(self).auto_scroll,
    {
        self.scroll_offset = 0;
        self.auto_scroll = false;
    }
}

#[derive(Debug, Clone, Copy, PartialEq, Eq, Structural)]
pub enum Tab {
    Dashboard,
    Build,
    Run,
    Setup,
    Tests,
}

impl Tab {
    /// Every tab, in display order.
    pub fn all() -> (r: Vec<Tab>)
        ensures
            r@ == seq![Tab::Dashboard, Tab::Build, Tab::Run, Tab::Setup, Tab::Tests],
    {
        let mut v: Vec<Tab> = Vec::new();
        v.push(Tab::Dashboard);
        v.push(Tab::Build);
        v.push(Tab::Run);
        v.push(Tab::Setup);
        v.push(Tab::Tests);
        proof {
            assert(v@ =~= seq![Tab::Dashboard, Tab::Build, Tab::Run, Tab::Setup, Tab::Tests]);
        }
        v
    }

    /// What `label` returns for each tab.
    pub open spec fn label_spec(&self) -> Seq<char> {
        match self {
            Tab::Dashboard => "Dashboard"@,
            Tab::Build => "Build"@,
            Tab::Run => "Run"@,
            Tab::Setup => "Setup"@,
            Tab::Tests => "Tests"@,
        }
    }

    pub fn label(&self) -> (r: &'static str)
        ensures
            r@ == self.label_spec(),
    {
        match self {
            Tab::Dashboard => "Dashboard",
            Tab::Build => "Build",
            Tab::Run => "Run",
            Tab::Setup => "Setup",
            Tab::Tests => "Tests",
        }
    }

    /// Position of each tab in display order.
    pub open spec fn index_spec(&self) -> int {
        match self {
            Tab::Dashboard => 0,
            Tab::Build => 1,
            Tab::Run => 2,
            Tab::Setup => 3,
            Tab::Tests => 4,
        }
    }

    pub fn index(&self) -> (r: usize)
        ensures
            r == self.index_spec(),
    {
        match self {
            Tab::Dashboard => 0,
            Tab::Build => 1,
            Tab::Run => 2,
            Tab::Setup => 3,
            Tab::Tests => 4,
        }
    }

    /// The tab one step to the right, wrapping at the end.
    pub open spec fn next_spec(&self) -> Tab {
        match self {
            Tab::Dashboard => Tab::Build,
            Tab::Build => Tab::Run,
            Tab::Run => Tab::Setup,
            Tab::Setup => Tab::Tests,
            Tab::Tests => Tab::Dashboard,
        }
    }

    pub fn next(&self) -> (r: Tab)
        ensures
            r == self.next_spec(),
    {
        match self {
            Tab::Dashboard => Tab::Build,
            Tab::Build => Tab::Run,
            Tab::Run => Tab::Setup,
            Tab::Setup => Tab::Tests,
            Tab::Tests => Tab::Dashboard,
        }
    }

    /// The tab one step to the left, wrapping at the start; inverse of
    /// `next`.
    pub open spec fn prev_spec(&self) -> Tab {
        match self {
            Tab::Dashboard => Tab::Tests,
            Tab::Build => Tab::Dashboard,
            Tab::Run => Tab::Build,
            Tab::Setup => Tab::Run,
            Tab::Tests => Tab::Setup,
        }
    }

    pub fn prev(&self) -> (r: Tab)
        ensures
            r == self.prev_spec(),
            r.next_spec() == *self,
    {
        match self {
            Tab::Dashboard => Tab::Tests,
            Tab::Build => Tab::Dashboard,
            Tab::Run => Tab::Build,
            Tab::Setup => Tab::Run,
            Tab::Tests => Tab::Setup,
        }
    }
}

#[derive(Debug, Clone, Copy, PartialEq, Eq, Structural)]
pub enum SetupAction {
    PkgInstantiate,
    PkgStatus,
    PkgUpdate,
    RefreshDetection,
}

impl SetupAction {
    /// Every setup action, in display order.
    pub fn all() -> (r: Vec<SetupAction>)
        ensures
            r@ == seq![
                SetupAction::PkgInstantiate,
                SetupAction::PkgStatus,
                SetupAction::PkgUpdate,
                SetupAction::RefreshDetection,
            ],
    {
        let mut v: Vec<SetupAction> = Vec::new();
        v.push(SetupAction::PkgInstantiate);
        v.push(SetupAction::PkgStatus);
        v.push(SetupAction::PkgUpdate);
        v.push(SetupAction::RefreshDetection);
        proof {
            assert(v@ =~= seq![
                SetupAction::PkgInstantiate,
                SetupAction::PkgStatus,
                SetupAction::PkgUpdate,
                SetupAction::RefreshDetection,
            ]);
        }
        v
    }

    /// What `label` returns for each action.
    pub open spec fn label_spec(&self) -> Seq<char> {
        match self {
            SetupAction::PkgInstantiate => "Pkg.instantiate()"@,
            SetupAction::PkgStatus => "Pkg.status()"@,
            SetupAction::PkgUpdate => "Pkg.update()"@,
            SetupAction::RefreshDetection => "Refresh tool detection"@,
        }
    }

    pub fn label(&self) -> (r: &'static str)
        ensures
            r@ == self.label_spec(),
            r@.len() > 0,
    {
        proof {
            reveal_strlit("Pkg.instantiate()");
            reveal_strlit("Pkg.status()");
            reveal_strlit("Pkg.update()");
            reveal_strlit("Refresh tool detection");
        }
        match self {
            SetupAction::PkgInstantiate => "Pkg.instantiate()",
            SetupAction::PkgStatus => "Pkg.status()",
            SetupAction::PkgUpdate => "Pkg.update()",
            SetupAction::RefreshDetection => "Refresh tool detection",
        }
    }
}

/// Full state of the interactive console.
pub struct AppState {
    pub platform: Platform,
    pub project_root: String,
    pub project_kind: ProjectKind,
    pub engine_path: String,
    pub active_tab: Tab,
    pub tools: ToolSet,
    pub julia_packages_installed: Option<bool>,
    pub backends: Vec<BackendState>,
    pub build_selected: usize,
    pub build_log: LogBuffer,
    pub build_process: ProcessStatus,
    pub examples: Vec<ExampleEntry>,
    pub run_selected: usize,
    pub run_backend_idx: usize,
    pub run_log: LogBuffer,
    pub run_process: ProcessStatus,
    pub setup_selected: usize,
    pub setup_log: LogBuffer,
    pub setup_process: ProcessStatus,
    pub test_log: LogBuffer,
    pub test_process: ProcessStatus,
    pub show_help: bool,
    pub should_quit: bool,
}

impl AppState {
    /// Build state of one backend right after startup: targets that need a
    /// build start as not built, the others as not needing one.
    pub open spec fn initial_backend_state(b: Backend) -> BuildStatus {
        if b == Backend::Metal || b == Backend::WebGPU || b == Backend::WasmExport {
            BuildStatus::NotBuilt
        } else {
            BuildStatus::NotNeeded
        }
    }

    pub fn new(project_root: String, project_kind: ProjectKind, engine_path: String) -> (r: Self)
        ensures
            r.platform == Platform::Linux,
            r.project_kind == project_kind,
            r.active_tab == Tab::Dashboard,
            r.backends@.len() == Backend::available_spec(Platform::Linux).len(),
            forall|i: int|
                0 <= i < r.backends@.len() ==> {
                    &&& (#[trigger] r.backends@[i]).backend == Backend::available_spec(
                        Platform::Linux,
                    )[i]
                    &&& r.backends@[i].build_status == Self::initial_backend_state(
                        r.backends@[i].backend,
                    )
                    &&& !r.backends@[i].deps_satisfied
                },
            r.build_log.wf() && r.run_log.wf() && r.setup_log.wf() && r.test_log.wf(),
            r.build_selected == 0 && r.run_selected == 0 && r.setup_selected == 0,
            r.build_process == ProcessStatus::Idle && r.run_process == ProcessStatus::Idle
                && r.setup_process == ProcessStatus::Idle && r.test_process == ProcessStatus::Idle,
            !r.show_help && !r.should_quit,
            r.julia_packages_installed is None,
            r.examples@.len() == 0,
    {
        let platform = Platform::detect();
        let available = Backend::available_on(platform);
        let mut backends: Vec<BackendState> = Vec::new();
        let n = available.len();
        let mut i: usize = 0;
        while i < n
            invariant
                n == available@.len(),
                i <= n,
                backends@.len() == i,
                forall|j: int|
                    0 <= j < i ==> {
                        &&& (#[trigger] backends@[j]).backend == available@[j]
                        &&& backends@[j].build_status == Self::initial_backend_state(
                            backends@[j].backend,
                        )
                        &&& !backends@[j].deps_satisfied
                    },
            decreases n - i,
        {
            let b = available[i];
            let status = if b.needs_build() {
                BuildStatus::NotBuilt
            } else {
                BuildStatus::NotNeeded
            };
            backends.push(BackendState { backend: b, build_status: status, deps_satisfied: false });
            i = i + 1;
        }
        AppState {
            platform,
            project_root,
            project_kind,
            engine_path,
            active_tab: Tab::Dashboard,
            tools: ToolSet::default(),
            julia_packages_installed: None,
            backends,
            build_selected: 0,
            build_log: LogBuffer::new(5000),
            build_process: ProcessStatus::Idle,
            examples: Vec::new(),
            run_selected: 0,
            run_backend_idx: 0,
            run_log: LogBuffer::new(5000),
            run_process: ProcessStatus::Idle,
            setup_selected: 0,
            setup_log: LogBuffer::new(5000),
            setup_process: ProcessStatus::Idle,
            test_log: LogBuffer::new(10000),
            test_process: ProcessStatus::Idle,
            show_help: false,
            should_quit: false,
        }
    }

    /// Whether a backend entry can run examples directly (everything but
    /// the WASM export target).
    pub open spec fn runnable_filter() -> spec_fn(BackendState) -> bool {
        |b: BackendState| b.backend != Backend::WasmExport
    }

    /// Backends that can run examples directly: the tracked backends,
    /// kept in order, without the WASM export target.
    pub fn runnable_backends(&self) -> (r: Vec<&BackendState>)
        ensures
            r@.len() == self.backends@.filter(Self::runnable_filter()).len(),
            forall|k: int|
                0 <= k < r@.len() ==> *(#[trigger] r@[k]) == self.backends@.filter(
                    Self::runnable_filter(),
                )[k],
    {
        let n = self.backends.len();
        let mut out: Vec<&BackendState> = Vec::new();
        let mut i: usize = 0;
        proof {
            reveal(Seq::filter);
            assert(self.backends@.take(0).filter(Self::runnable_filter()) =~= Seq::<
                BackendState,
            >::empty());
        }
        while i < n
            invariant
                n == self.backends@.len(),
                i <= n,
                out@.len() == self.backends@.take(i as int).filter(Self::runnable_filter()).len(),
                forall|k: int|
                    0 <= k < out@.len() ==> *(#[trigger] out@[k]) == self.backends@.take(
                        i as int,
                    ).filter(Self::runnable_filter())[k],
            decreases n - i,
        {
            let b = &self.backends[i];
            if !matches!(b.backend, Backend::WasmExport) {
                out.push(b);
            }
            i = i + 1;
            proof {
                reveal(Seq::filter);
                let s1 = self.backends@.take(i as int);
                assert(s1.drop_last() =~= self.backends@.take(i as int - 1));
                assert(s1.last() == self.backends@[i as int - 1]);
            }
        }
        proof {
            assert(self.backends@.take(n as int) =~= self.backends@);
        }
        out
    }
}

} // verus!
