//! Registration of the text service: who holds it, what stands against it, and how it is made and
//! undone.
use vstd::prelude::*;
use vstd::string::*;

use crate::deploy;
use crate::layout;
use crate::layout::PortableConfig;
use crate::path;
use crate::reg::Hive;
use crate::reply::{Reply, ReplyView};
use crate::text;
use crate::variant;
use crate::variant::Variant;

verus! {

/// What the machine says, as far as registration depends on it.
#[derive(Debug)]
pub struct Readings {
    /// The registered library, read from the user's classes.
    pub dll_user: Option<String>,
    /// The registered library, read from the machine's classes.
    pub dll_machine: Option<String>,
    /// The registered library, read from the merged classes.
    pub dll_classes: Option<String>,
    /// The directory whose libraries were last copied to the system directory.
    pub install_dir: Option<String>,
    /// The directory that the installer noted.
    pub install_location: Option<String>,
    /// The values of the variables that name the directories of the system.
    pub protected: Vec<Option<String>>,
    /// The value of `SystemRoot`.
    pub system_root: Option<String>,
    /// The files that exist, among those that were asked for.
    pub files: Vec<String>,
}

/// A value without the white space around it; none where nothing is left.
pub open spec fn cleaned(value: Option<Seq<char>>) -> Option<Seq<char>> {
    match value {
        Some(s) => if text::trimmed(s).len() > 0 {
            Some(text::trimmed(s))
        } else {
            None
        },
        None => None,
    }
}

fn clean(value: &Option<String>) -> (r: Option<String>)
    ensures
        r.deep_view() == cleaned(value.deep_view()),
{
    match value {
        Some(s) => {
            let t = text::trim(s.as_str());
            if t.as_str().is_empty() {
                None
            } else {
                Some(t)
            }
        },
        None => None,
    }
}

impl Readings {
    /// The library that is registered: the first of the three places that names one.
    pub open spec fn registered_dll(self) -> Option<Seq<char>> {
        if cleaned(self.dll_user.deep_view()) is Some {
            cleaned(self.dll_user.deep_view())
        } else if cleaned(self.dll_machine.deep_view()) is Some {
            cleaned(self.dll_machine.deep_view())
        } else {
            cleaned(self.dll_classes.deep_view())
        }
    }

    pub open spec fn deployed_from(self) -> Option<Seq<char>> {
        cleaned(self.install_dir.deep_view())
    }

    pub open spec fn installed_at(self) -> Option<Seq<char>> {
        cleaned(self.install_location.deep_view())
    }

    pub open spec fn has_file(self, p: Seq<char>) -> bool {
        self.files.deep_view().contains(p)
    }
}

/// The key below which a hive names the registered library.
pub open spec fn dll_subkey_of(hive: Hive, clsid: Seq<char>) -> Seq<char> {
    if hive == Hive::ClassesRoot {
        "CLSID\\"@ + clsid + "\\InprocServer32"@
    } else {
        "Software\\Classes\\CLSID\\"@ + clsid + "\\InprocServer32"@
    }
}

/// The key whose default value names the registered library.
pub fn dll_subkey(hive: Hive, v: &Variant) -> (r: String)
    ensures
        r@ == dll_subkey_of(hive, v.clsid@),
{
    match hive {
        Hive::ClassesRoot => text::cat3("CLSID\\", v.clsid, "\\InprocServer32"),
        _ => text::cat3("Software\\Classes\\CLSID\\", v.clsid, "\\InprocServer32"),
    }
}

/// The key below the machine's hive that holds `InstallDir`.
pub fn app_reg_subkey(v: &Variant) -> (r: String)
    ensures
        r@ == "Software\\"@ + v.app_name@,
{
    text::cat2("Software\\", v.app_name)
}

/// The key below the machine's hive that holds the installer's `InstallLocation`.
pub fn uninstall_subkey(v: &Variant) -> (r: String)
    ensures
        r@ == "Software\\Microsoft\\Windows\\CurrentVersion\\Uninstall\\"@ + v.display_name@,
{
    text::cat2("Software\\Microsoft\\Windows\\CurrentVersion\\Uninstall\\", v.display_name)
}

pub open spec fn system_root_of(value: Option<Seq<char>>) -> Seq<char> {
    match value {
        Some(s) => s,
        None => "C:\\Windows"@,
    }
}

/// Where the copy of a library in the system directory lies. It does not depend on the package.
pub open spec fn system_copy(root: Option<Seq<char>>, v: Variant, x86: bool) -> Seq<char> {
    let below = if x86 {
        "SysWOW64"@
    } else {
        "System32"@
    };
    let name = if x86 {
        v.dll_name_x86@
    } else {
        v.dll_name@
    };
    path::joined_path(
        path::joined_path(
            path::joined_path(path::joined_path(system_root_of(root), below), "IME"@),
            v.app_name@,
        ),
        name,
    )
}

fn root_text(root: &Option<String>) -> (r: String)
    ensures
        r@ == system_root_of(root.deep_view()),
{
    match root {
        Some(s) => s.clone(),
        None => String::from_str("C:\\Windows"),
    }
}

/// Where the copy of a library in the system directory lies.
pub fn system_dll_path(root: &Option<String>, v: &Variant, x86: bool) -> (r: String)
    ensures
        r@ == system_copy(root.deep_view(), *v, x86),
{
    let sysroot = root_text(root);
    let below = path::join(
        sysroot.as_str(),
        if x86 {
            "SysWOW64"
        } else {
            "System32"
        },
    );
    let ime = path::join(below.as_str(), "IME");
    let app = path::join(ime.as_str(), v.app_name);
    let name = if x86 {
        v.dll_name_x86.as_str()
    } else {
        v.dll_name.as_str()
    };
    path::join(app.as_str(), name)
}

/// The text by which a path is compared.
pub open spec fn path_key(p: Seq<char>) -> Seq<char> {
    text::lowercase(text::trim_end_of(text::replace_char(p, '/', '\\'), seq!['\\']))
}

/// Whether two paths are the same: case, the kind of slash and slashes at the end do not count.
pub open spec fn is_same_path(a: Seq<char>, b: Seq<char>) -> bool {
    path_key(a) == path_key(b)
}

fn key_of(p: &str) -> (r: String)
    ensures
        r@ == path_key(p@),
{
    let one = text::replace(p, '/', '\\');
    let slash: Vec<char> = vec!['\\'];
    assert(slash@ =~= seq!['\\']);
    let short = text::trim_end_chars(one.as_str(), &slash);
    text::to_lowercase(short.as_str())
}

/// Whether two paths are the same.
pub fn same_path(a: &str, b: &str) -> (r: bool)
    ensures
        r == is_same_path(a@, b@),
{
    let x = key_of(a);
    let y = key_of(b);
    text::same_text(x.as_str(), y.as_str())
}

/// The library that is registered.
pub fn registered_dll_path(m: &Readings) -> (r: Option<String>)
    ensures
        r.deep_view() == m.registered_dll(),
{
    let user = clean(&m.dll_user);
    if user.is_some() {
        return user;
    }
    let machine = clean(&m.dll_machine);
    if machine.is_some() {
        return machine;
    }
    clean(&m.dll_classes)
}

/// Whether the copy in the system directory comes from this package.
pub open spec fn owns(cfg: PortableConfig, m: Readings) -> bool {
    m.deployed_from() matches Some(dir) && is_same_path(dir, cfg.root_dir@)
}

/// Whether the copy in the system directory comes from this package.
pub fn owns_system_deployment(cfg: &PortableConfig, m: &Readings) -> (r: bool)
    ensures
        r == owns(*cfg, *m),
{
    match clean(&m.install_dir) {
        Some(dir) => same_path(dir.as_str(), cfg.root_dir.as_str()),
        None => false,
    }
}

/// Whether this package holds the registration. A registered copy in the system directory tells
/// nothing by its path, which every package shares; a registered library in place does.
pub open spec fn holds_registration(cfg: PortableConfig, v: Variant, m: Readings) -> bool {
    match (m.registered_dll(), cfg.tsf_dll.deep_view()) {
        (Some(reg), Some(dll)) => if is_same_path(
            reg,
            system_copy(m.system_root.deep_view(), v, false),
        ) {
            owns(cfg, m)
        } else {
            is_same_path(reg, dll)
        },
        _ => false,
    }
}

/// Whether this package holds the registration.
pub fn is_registered(cfg: &PortableConfig, v: &Variant, m: &Readings) -> (r: bool)
    ensures
        r == holds_registration(*cfg, *v, *m),
{
    let reg_path = match registered_dll_path(m) {
        Some(p) => p,
        None => {
            return false;
        },
    };
    match &cfg.tsf_dll {
        None => false,
        Some(dll) => {
            let sys = system_dll_path(&m.system_root, v, false);
            if same_path(reg_path.as_str(), sys.as_str()) {
                owns_system_deployment(cfg, m)
            } else {
                same_path(reg_path.as_str(), dll.as_str())
            }
        },
    }
}

/// Whether a directory is that of an installation: the installer noted it, or an uninstaller lies
/// in it.
pub open spec fn is_installation(root: Seq<char>, m: Readings) -> bool {
    ||| m.installed_at() matches Some(dir) && is_same_path(dir, root)
    ||| m.has_file(path::joined_path(root, "uninstall.exe"@))
}

fn is_installed_directory(root: &str, m: &Readings) -> (r: bool)
    ensures
        r == is_installation(root@, *m),
{
    if let Some(install) = clean(&m.install_location) {
        if same_path(install.as_str(), root) {
            return true;
        }
    }
    let uninstaller = path::join(root, "uninstall.exe");
    text::contains_text(&m.files, uninstaller.as_str())
}

/// Why portable mode is not available.
#[derive(Debug, Clone, Copy, PartialEq, Eq, Structural)]
pub enum Conflict {
    /// The package lies in the directory of an installation.
    InstalledHere,
    /// The package lies below a directory of the system.
    Protected,
    /// Another portable package holds the registration, and the service runs.
    OtherPortable,
    /// An installation elsewhere holds the registration.
    OtherInstall,
}

impl Conflict {
    pub open spec fn text(self) -> Seq<char> {
        match self {
            Conflict::InstalledHere =>
                "当前位于已安装目录，便携模式不可用。如需使用便携模式，请将文件复制到其他目录运行。"@,
            Conflict::Protected =>
                "当前位于系统保护目录，便携模式不可用。如需使用便携模式，请将文件复制到其他目录运行。"@,
            Conflict::OtherPortable => "检测到另一个便携版实例正在运行，请先停止该实例后再启动。"@,
            Conflict::OtherInstall =>
                "系统已注册其他位置的清风输入法，为避免覆盖现有注册信息，便携模式已禁用。"@,
        }
    }

    pub fn message(&self) -> (r: String)
        ensures
            r@ == self.text(),
    {
        String::from_str(
            match self {
                Conflict::InstalledHere =>
                    "当前位于已安装目录，便携模式不可用。如需使用便携模式，请将文件复制到其他目录运行。",
                Conflict::Protected =>
                    "当前位于系统保护目录，便携模式不可用。如需使用便携模式，请将文件复制到其他目录运行。",
                Conflict::OtherPortable => "检测到另一个便携版实例正在运行，请先停止该实例后再启动。",
                Conflict::OtherInstall =>
                    "系统已注册其他位置的清风输入法，为避免覆盖现有注册信息，便携模式已禁用。",
            },
        )
    }
}

/// The directory that the registered library belongs to: for the copy in the system directory the
/// one that it was copied from, otherwise the one that it lies in.
pub open spec fn owner_dir(reg: Seq<char>, v: Variant, m: Readings) -> Option<Seq<char>> {
    if is_same_path(reg, system_copy(m.system_root.deep_view(), v, false)) {
        m.deployed_from()
    } else {
        path::parent_of(reg)
    }
}

fn find_owner_dir(reg: &str, v: &Variant, m: &Readings) -> (r: Option<String>)
    ensures
        r.deep_view() == owner_dir(reg@, *v, *m),
{
    let sys = system_dll_path(&m.system_root, v, false);
    if same_path(reg, sys.as_str()) {
        clean(&m.install_dir)
    } else {
        path::parent(reg)
    }
}

/// Whether the registered library belongs to a portable package.
pub open spec fn owner_is_portable(reg: Seq<char>, v: Variant, m: Readings) -> bool {
    owner_dir(reg, v, m) matches Some(dir) && variant::marked_portable(dir, m.files.deep_view())
}

/// What stands against portable mode.
pub open spec fn conflict_of(cfg: PortableConfig, v: Variant, m: Readings, running: bool) -> Option<
    Conflict,
> {
    if is_installation(cfg.root_dir@, m) {
        Some(Conflict::InstalledHere)
    } else if layout::protected_under(cfg.root_dir@, layout::given(m.protected.deep_view())) {
        Some(Conflict::Protected)
    } else {
        match m.registered_dll() {
            None => None,
            Some(reg) => if cfg.tsf_dll is None || holds_registration(cfg, v, m) || !m.has_file(reg) {
                None
            } else if owner_is_portable(reg, v, m) {
                if running {
                    Some(Conflict::OtherPortable)
                } else {
                    None
                }
            } else {
                Some(Conflict::OtherInstall)
            },
        }
    }
}

/// What stands against portable mode.
pub fn find_conflict(cfg: &PortableConfig, v: &Variant, m: &Readings, running: bool) -> (r: Option<
    Conflict,
>)
    ensures
        r == conflict_of(*cfg, *v, *m, running),
{
    if is_installed_directory(cfg.root_dir.as_str(), m) {
        return Some(Conflict::InstalledHere);
    }
    if layout::is_protected_dir(cfg.root_dir.as_str(), &m.protected) {
        return Some(Conflict::Protected);
    }
    let reg = match registered_dll_path(m) {
        Some(p) => p,
        None => {
            return None;
        },
    };
    if cfg.tsf_dll.is_none() || is_registered(cfg, v, m) || !text::contains_text(
        &m.files,
        reg.as_str(),
    ) {
        return None;
    }
    let portable = match find_owner_dir(reg.as_str(), v, m) {
        Some(dir) => variant::has_portable_marker_in(dir.as_str(), &m.files),
        None => false,
    };
    if portable {
        if running {
            Some(Conflict::OtherPortable)
        } else {
            None
        }
    } else {
        Some(Conflict::OtherInstall)
    }
}

/// Why portable mode is not available, in words; nothing where it is.
pub fn installed_conflict(
    cfg: &PortableConfig,
    v: &Variant,
    m: &Readings,
    service_running: bool,
) -> (r: Option<String>)
    ensures
        r.deep_view() == match conflict_of(*cfg, *v, *m, service_running) {
            Some(c) => Some(c.text()),
            None => None,
        },
{
    match find_conflict(cfg, v, m, service_running) {
        Some(c) => Some(c.message()),
        None => None,
    }
}

/// The place of the conflict.
pub open spec fn conflict_place(cfg: PortableConfig, m: Readings) -> Option<Seq<char>> {
    if is_installation(cfg.root_dir@, m) {
        match m.installed_at() {
            Some(dir) => Some(dir),
            None => Some(cfg.root_dir@),
        }
    } else if layout::protected_under(cfg.root_dir@, layout::given(m.protected.deep_view())) {
        Some(cfg.root_dir@)
    } else {
        m.registered_dll()
    }
}

/// The place of the conflict, to be shown.
pub fn installed_conflict_path(cfg: &PortableConfig, m: &Readings) -> (r: Option<String>)
    ensures
        r.deep_view() == conflict_place(*cfg, *m),
{
    if is_installed_directory(cfg.root_dir.as_str(), m) {
        return match clean(&m.install_location) {
            Some(dir) => Some(dir),
            None => Some(cfg.root_dir.clone()),
        };
    }
    if layout::is_protected_dir(cfg.root_dir.as_str(), &m.protected) {
        return Some(cfg.root_dir.clone());
    }
    registered_dll_path(m)
}

/// The files that a conflict depends on.
pub open spec fn probes_of(cfg: PortableConfig, v: Variant, m: Readings) -> Seq<Seq<char>> {
    let first = seq![path::joined_path(cfg.root_dir@, "uninstall.exe"@)];
    match m.registered_dll() {
        None => first,
        Some(reg) => match owner_dir(reg, v, m) {
            None => first.push(reg),
            Some(dir) => first.push(reg).push(
                path::joined_path(dir, variant::PORTABLE_MARKER_NAME@),
            ).push(path::joined_path(dir, variant::LEGACY_PORTABLE_MARKER_NAME@)),
        },
    }
}

/// The files that a conflict depends on; `files` plays no part in the readings here.
pub fn conflict_probes(cfg: &PortableConfig, v: &Variant, m: &Readings) -> (r: Vec<String>)
    ensures
        r.deep_view() == probes_of(*cfg, *v, *m),
{
    let mut r: Vec<String> = Vec::new();
    r.push(path::join(cfg.root_dir.as_str(), "uninstall.exe"));
    if let Some(reg) = registered_dll_path(m) {
        let owner = find_owner_dir(reg.as_str(), v, m);
        r.push(reg);
        if let Some(dir) = owner {
            r.push(path::join(dir.as_str(), variant::PORTABLE_MARKER_NAME));
            r.push(path::join(dir.as_str(), variant::LEGACY_PORTABLE_MARKER_NAME));
        }
    }
    assert(r.deep_view() =~= probes_of(*cfg, *v, *m));
    r
}

/// The flag of `InstallLayoutOrTip` that removes a profile.
pub const ILOT_UNINSTALL: u32 = 1;

/// Whom `icacls` grants reading and executing.
pub const ALL_APP_PACKAGES: &'static str = "*S-1-15-2-1:(RX)";

pub const INSTALL_DIR_ERROR: &'static str = "写入 InstallDir 失败（需要管理员权限）";

pub const PROFILE_ERROR: &'static str = "InstallLayoutOrTip 失败";

/// One step of making or undoing the registration.
#[derive(Debug)]
pub enum Step<S> {
    /// Write `InstallDir` below a key of the machine's hive.
    WriteInstallDir { subkey: S, dir: S },
    /// Copy a library into the system directory.
    CopyToSystem { src: S, dst: S },
    /// Let sandboxed applications load a library.
    GrantAccess { dll: S },
    /// Run `regsvr32` on a library.
    Regsvr { dll: S, x86: bool, unregister: bool },
    /// Call `InstallLayoutOrTip`.
    Profile { profile: S, flags: u32 },
    RemoveFile(S),
    /// Remove a directory, if it is empty.
    RemoveDir(S),
    DeleteInstallDir { subkey: S },
}

/// What a failure of a step means.
#[derive(Debug, Clone, Copy, PartialEq, Eq, Structural)]
pub enum OnError {
    /// The whole fails.
    Stop,
    /// So many of the next steps are left out.
    Skip(usize),
    /// Nothing.
    Ignore,
}

#[derive(Debug)]
pub struct Planned<S> {
    pub step: Step<S>,
    pub on_error: OnError,
}

pub open spec fn step_view(s: Step<String>) -> Step<Seq<char>> {
    match s {
        Step::WriteInstallDir { subkey, dir } => Step::WriteInstallDir { subkey: subkey@, dir: dir@ },
        Step::CopyToSystem { src, dst } => Step::CopyToSystem { src: src@, dst: dst@ },
        Step::GrantAccess { dll } => Step::GrantAccess { dll: dll@ },
        Step::Regsvr { dll, x86, unregister } => Step::Regsvr { dll: dll@, x86, unregister },
        Step::Profile { profile, flags } => Step::Profile { profile: profile@, flags },
        Step::RemoveFile(p) => Step::RemoveFile(p@),
        Step::RemoveDir(p) => Step::RemoveDir(p@),
        Step::DeleteInstallDir { subkey } => Step::DeleteInstallDir { subkey: subkey@ },
    }
}

pub open spec fn plan_view(plan: Seq<Planned<String>>) -> Seq<Planned<Seq<char>>> {
    Seq::new(
        plan.len(),
        |i: int| Planned { step: step_view(plan[i].step), on_error: plan[i].on_error },
    )
}

fn plan_step(plan: &mut Vec<Planned<String>>, step: Step<String>, on_error: OnError)
    ensures
        plan_view(final(plan)@) == plan_view(old(plan)@).push(
            Planned { step: step_view(step), on_error },
        ),
{
    plan.push(Planned { step, on_error });
    assert(plan_view(plan@) =~= plan_view(old(plan)@).push(
        Planned { step: step_view(step), on_error },
    ));
}

/// Copying a library into the system directory and registering the copy there.
pub open spec fn deploy_steps(
    src: Seq<char>,
    dst: Seq<char>,
    x86: bool,
    copy_error: OnError,
    run_error: OnError,
) -> Seq<Planned<Seq<char>>> {
    seq![
        Planned { step: Step::CopyToSystem { src, dst }, on_error: copy_error },
        Planned { step: Step::GrantAccess { dll: dst }, on_error: OnError::Ignore },
        Planned { step: Step::Regsvr { dll: dst, x86, unregister: false }, on_error: run_error },
    ]
}

/// Registering a library where it lies.
pub open spec fn in_place_steps(dll: Seq<char>, x86: bool, run_error: OnError) -> Seq<
    Planned<Seq<char>>,
> {
    seq![
        Planned { step: Step::GrantAccess { dll }, on_error: OnError::Ignore },
        Planned { step: Step::Regsvr { dll, x86, unregister: false }, on_error: run_error },
    ]
}

/// How the libraries are registered.
pub open spec fn library_steps(
    cfg: PortableConfig,
    v: Variant,
    root: Option<Seq<char>>,
    dll: Seq<char>,
) -> Seq<Planned<Seq<char>>> {
    if cfg.system_deploy {
        let main = seq![
            Planned {
                step: Step::WriteInstallDir {
                    subkey: "Software\\"@ + v.app_name@,
                    dir: cfg.root_dir@,
                },
                on_error: OnError::Stop,
            },
        ] + deploy_steps(dll, system_copy(root, v, false), false, OnError::Stop, OnError::Stop);
        match cfg.tsf_dll_x86.deep_view() {
            Some(x86) => main + deploy_steps(
                x86,
                system_copy(root, v, true),
                true,
                OnError::Skip(2),
                OnError::Ignore,
            ),
            None => main,
        }
    } else {
        let main = in_place_steps(dll, false, OnError::Stop);
        match cfg.tsf_dll_x86.deep_view() {
            Some(x86) => main + in_place_steps(x86, true, OnError::Ignore),
            None => main,
        }
    }
}

/// How the registration is made: the libraries first, then the profile.
pub open spec fn register_steps(
    cfg: PortableConfig,
    v: Variant,
    root: Option<Seq<char>>,
    dll: Seq<char>,
) -> Seq<Planned<Seq<char>>> {
    library_steps(cfg, v, root, dll).push(
        Planned {
            step: Step::Profile { profile: v.profile_str@, flags: 0 },
            on_error: OnError::Stop,
        },
    )
}

fn plan_deploy_steps(
    plan: &mut Vec<Planned<String>>,
    src: &str,
    dst: String,
    x86: bool,
    copy_error: OnError,
    run_error: OnError,
)
    ensures
        plan_view(final(plan)@) == plan_view(old(plan)@) + deploy_steps(
            src@,
            dst@,
            x86,
            copy_error,
            run_error,
        ),
{
    plan_step(
        plan,
        Step::CopyToSystem { src: String::from_str(src), dst: dst.clone() },
        copy_error,
    );
    plan_step(plan, Step::GrantAccess { dll: dst.clone() }, OnError::Ignore);
    plan_step(plan, Step::Regsvr { dll: dst, x86, unregister: false }, run_error);
    assert(plan_view(plan@) =~= plan_view(old(plan)@) + deploy_steps(
        src@,
        dst@,
        x86,
        copy_error,
        run_error,
    ));
}

fn plan_in_place(plan: &mut Vec<Planned<String>>, dll: &str, x86: bool, run_error: OnError)
    ensures
        plan_view(final(plan)@) == plan_view(old(plan)@) + in_place_steps(dll@, x86, run_error),
{
    plan_step(plan, Step::GrantAccess { dll: String::from_str(dll) }, OnError::Ignore);
    plan_step(
        plan,
        Step::Regsvr { dll: String::from_str(dll), x86, unregister: false },
        run_error,
    );
    assert(plan_view(plan@) =~= plan_view(old(plan)@) + in_place_steps(dll@, x86, run_error));
}

/// There is no library to register: what must be built first.
#[derive(Debug)]
pub struct NoLibrary {
    pub dll_name: String,
}

impl NoLibrary {
    pub fn message(&self) -> (r: String)
        ensures
            r@ == "未找到 TSF DLL，请先构建 "@ + self.dll_name@,
    {
        text::cat2("未找到 TSF DLL，请先构建 ", self.dll_name.as_str())
    }
}

/// Plans the registration, with the rights of an administrator.
pub fn register_direct(cfg: &PortableConfig, v: &Variant, system_root: &Option<String>) -> (r: Result<
    Vec<Planned<String>>,
    NoLibrary,
>)
    ensures
        match (r, cfg.tsf_dll.deep_view()) {
            (Ok(plan), Some(dll)) => plan_view(plan@) == register_steps(
                *cfg,
                *v,
                system_root.deep_view(),
                dll,
            ),
            (Err(e), None) => e.dll_name@ == v.dll_name@,
            _ => false,
        },
{
    let dll = match &cfg.tsf_dll {
        Some(d) => d.as_str(),
        None => {
            return Err(NoLibrary { dll_name: v.dll_name.clone() });
        },
    };
    let mut plan: Vec<Planned<String>> = Vec::new();
    assert(plan_view(plan@) =~= seq![]);
    if cfg.system_deploy {
        plan_step(
            &mut plan,
            Step::WriteInstallDir { subkey: app_reg_subkey(v), dir: cfg.root_dir.clone() },
            OnError::Stop,
        );
        plan_deploy_steps(
            &mut plan,
            dll,
            system_dll_path(system_root, v, false),
            false,
            OnError::Stop,
            OnError::Stop,
        );
        if let Some(x86) = &cfg.tsf_dll_x86 {
            plan_deploy_steps(
                &mut plan,
                x86.as_str(),
                system_dll_path(system_root, v, true),
                true,
                OnError::Skip(2),
                OnError::Ignore,
            );
        }
    } else {
        plan_in_place(&mut plan, dll, false, OnError::Stop);
        if let Some(x86) = &cfg.tsf_dll_x86 {
            plan_in_place(&mut plan, x86.as_str(), true, OnError::Ignore);
        }
    }
    assert(plan_view(plan@) =~= library_steps(*cfg, *v, system_root.deep_view(), dll@));
    plan_step(
        &mut plan,
        Step::Profile { profile: String::from_str(v.profile_str), flags: 0 },
        OnError::Stop,
    );
    Ok(plan)
}

/// A step whose failure means nothing.
pub open spec fn attempt(step: Step<Seq<char>>) -> Planned<Seq<char>> {
    Planned { step, on_error: OnError::Ignore }
}

/// Undoing one copy in the system directory, where it is there.
pub open spec fn undo_copy(v: Variant, m: Readings, x86: bool) -> Seq<Planned<Seq<char>>> {
    let sys = system_copy(m.system_root.deep_view(), v, x86);
    if m.has_file(sys) {
        seq![
            attempt(Step::Regsvr { dll: sys, x86, unregister: true }),
            attempt(Step::RemoveFile(sys)),
        ]
    } else {
        seq![]
    }
}

/// Removing the directory of one copy.
pub open spec fn undo_dir(v: Variant, m: Readings, x86: bool) -> Seq<Planned<Seq<char>>> {
    match path::parent_of(system_copy(m.system_root.deep_view(), v, x86)) {
        Some(dir) => seq![attempt(Step::RemoveDir(dir))],
        None => seq![],
    }
}

/// Undoing what this package copied to the system directory.
pub open spec fn undo_system(v: Variant, m: Readings) -> Seq<Planned<Seq<char>>> {
    undo_copy(v, m, true) + undo_copy(v, m, false) + undo_dir(v, m, true) + undo_dir(v, m, false)
        + seq![attempt(Step::DeleteInstallDir { subkey: "Software\\"@ + v.app_name@ })]
}

/// Undoing the registration of a library where it lies.
pub open spec fn undo_in_place(dll: Option<Seq<char>>, x86: bool) -> Seq<Planned<Seq<char>>> {
    match dll {
        Some(d) => seq![attempt(Step::Regsvr { dll: d, x86, unregister: true })],
        None => seq![],
    }
}

/// How the registration is undone: the profile, then the copies in the system directory if they
/// are this package's, then the libraries in place.
pub open spec fn unregister_steps(cfg: PortableConfig, v: Variant, m: Readings) -> Seq<
    Planned<Seq<char>>,
> {
    seq![attempt(Step::Profile { profile: v.profile_str@, flags: ILOT_UNINSTALL })] + (if owns(cfg, m) {
        undo_system(v, m)
    } else {
        seq![]
    }) + undo_in_place(cfg.tsf_dll_x86.deep_view(), true) + undo_in_place(
        cfg.tsf_dll.deep_view(),
        false,
    )
}

fn plan_undo_copy(plan: &mut Vec<Planned<String>>, v: &Variant, m: &Readings, x86: bool)
    ensures
        plan_view(final(plan)@) == plan_view(old(plan)@) + undo_copy(*v, *m, x86),
{
    let ghost before = plan_view(plan@);
    let sys = system_dll_path(&m.system_root, v, x86);
    if text::contains_text(&m.files, sys.as_str()) {
        plan_step(
            plan,
            Step::Regsvr { dll: sys.clone(), x86, unregister: true },
            OnError::Ignore,
        );
        plan_step(plan, Step::RemoveFile(sys), OnError::Ignore);
    }
    assert(plan_view(plan@) =~= before + undo_copy(*v, *m, x86));
}

fn plan_undo_dir(plan: &mut Vec<Planned<String>>, v: &Variant, m: &Readings, x86: bool)
    ensures
        plan_view(final(plan)@) == plan_view(old(plan)@) + undo_dir(*v, *m, x86),
{
    let ghost before = plan_view(plan@);
    let sys = system_dll_path(&m.system_root, v, x86);
    if let Some(dir) = path::parent(sys.as_str()) {
        plan_step(plan, Step::RemoveDir(dir), OnError::Ignore);
    }
    assert(plan_view(plan@) =~= before + undo_dir(*v, *m, x86));
}

fn plan_undo_in_place(plan: &mut Vec<Planned<String>>, dll: &Option<String>, x86: bool)
    ensures
        plan_view(final(plan)@) == plan_view(old(plan)@) + undo_in_place(dll.deep_view(), x86),
{
    let ghost before = plan_view(plan@);
    if let Some(d) = dll {
        plan_step(plan, Step::Regsvr { dll: d.clone(), x86, unregister: true }, OnError::Ignore);
    }
    assert(plan_view(plan@) =~= before + undo_in_place(dll.deep_view(), x86));
}

/// Plans how the registration is undone, with the rights of an administrator.
pub fn unregister_direct(cfg: &PortableConfig, v: &Variant, m: &Readings) -> (r: Vec<Planned<String>>)
    ensures
        plan_view(r@) == unregister_steps(*cfg, *v, *m),
{
    let mut plan: Vec<Planned<String>> = Vec::new();
    assert(plan_view(plan@) =~= seq![]);
    plan_step(
        &mut plan,
        Step::Profile { profile: String::from_str(v.profile_str), flags: ILOT_UNINSTALL },
        OnError::Ignore,
    );
    let ghost first = plan_view(plan@);
    assert(first =~= seq![
        attempt(Step::Profile { profile: v.profile_str@, flags: ILOT_UNINSTALL }),
    ]);
    if owns_system_deployment(cfg, m) {
        plan_undo_copy(&mut plan, v, m, true);
        plan_undo_copy(&mut plan, v, m, false);
        plan_undo_dir(&mut plan, v, m, true);
        plan_undo_dir(&mut plan, v, m, false);
        plan_step(
            &mut plan,
            Step::DeleteInstallDir { subkey: app_reg_subkey(v) },
            OnError::Ignore,
        );
        assert(plan_view(plan@) =~= first + undo_system(*v, *m));
    } else {
        assert(plan_view(plan@) =~= first + Seq::<Planned<Seq<char>>>::empty());
    }
    plan_undo_in_place(&mut plan, &cfg.tsf_dll_x86, true);
    plan_undo_in_place(&mut plan, &cfg.tsf_dll, false);
    assert(plan_view(plan@) =~= unregister_steps(*cfg, *v, *m));
    plan
}

/// The files that undoing the registration depends on.
pub fn unregister_probes(v: &Variant, system_root: &Option<String>) -> (r: Vec<String>)
    ensures
        r.deep_view() == seq![
            system_copy(system_root.deep_view(), *v, true),
            system_copy(system_root.deep_view(), *v, false),
        ],
{
    let mut r: Vec<String> = Vec::new();
    r.push(system_dll_path(system_root, v, true));
    r.push(system_dll_path(system_root, v, false));
    assert(r.deep_view() =~= seq![
        system_copy(system_root.deep_view(), *v, true),
        system_copy(system_root.deep_view(), *v, false),
    ]);
    r
}

/// Where a plan stands after a step.
#[derive(Debug)]
pub enum Progress<S> {
    /// This step is next.
    Next(usize),
    Done,
    Failed(S),
}

/// Where a plan stands after the step at `at` ended with `error`.
pub open spec fn progress_after<T>(
    plan: Seq<Planned<T>>,
    at: int,
    error: Option<Seq<char>>,
) -> Progress<Seq<char>> {
    let follow = |next: int|
        if next < plan.len() {
            Progress::Next(next as usize)
        } else {
            Progress::Done
        };
    match error {
        None => follow(at + 1),
        Some(e) => match plan[at].on_error {
            OnError::Stop => Progress::Failed(e),
            OnError::Skip(n) => follow(at + 1 + n),
            OnError::Ignore => follow(at + 1),
        },
    }
}

pub open spec fn progress_view(p: Progress<String>) -> Progress<Seq<char>> {
    match p {
        Progress::Next(i) => Progress::Next(i),
        Progress::Done => Progress::Done,
        Progress::Failed(e) => Progress::Failed(e@),
    }
}

/// Where a plan stands after the step at `at` ended with `error`.
pub fn after_step(plan: &Vec<Planned<String>>, at: usize, error: Option<String>) -> (r: Progress<String>)
    requires
        at < plan@.len(),
    ensures
        progress_view(r) == progress_after(plan@, at as int, error.deep_view()),
{
    let left: usize = plan.len() - at - 1;
    let skip: usize = match error {
        None => 0,
        Some(e) => match plan[at].on_error {
            OnError::Stop => {
                return Progress::Failed(e);
            },
            OnError::Skip(n) => n,
            OnError::Ignore => 0,
        },
    };
    if skip < left {
        Progress::Next(at + 1 + skip)
    } else {
        Progress::Done
    }
}

/// How registering, or undoing it, is gone about.
#[derive(Debug)]
pub enum Way {
    /// By this process, step by step.
    Direct(Vec<Planned<String>>),
    /// By the launcher started anew, as administrator, with this argument.
    Elevated(&'static str),
}

/// How the registration is made: directly by an administrator, otherwise by asking for the rights.
pub fn register(
    cfg: &PortableConfig,
    v: &Variant,
    system_root: &Option<String>,
    elevated: bool,
) -> (r: Result<Way, NoLibrary>)
    ensures
        match (r, cfg.tsf_dll.deep_view()) {
            (Ok(Way::Direct(plan)), Some(dll)) => elevated && plan_view(plan@) == register_steps(
                *cfg,
                *v,
                system_root.deep_view(),
                dll,
            ),
            (Ok(Way::Elevated(arg)), Some(_)) => !elevated && arg@ == "-elevate-register"@,
            (Err(e), None) => e.dll_name@ == v.dll_name@,
            _ => false,
        },
{
    if cfg.tsf_dll.is_none() {
        return Err(NoLibrary { dll_name: v.dll_name.clone() });
    }
    if elevated {
        match register_direct(cfg, v, system_root) {
            Ok(plan) => Ok(Way::Direct(plan)),
            Err(e) => Err(e),
        }
    } else {
        Ok(Way::Elevated("-elevate-register"))
    }
}

/// How the registration is undone: directly by an administrator, otherwise by asking for the
/// rights.
pub fn unregister(cfg: &PortableConfig, v: &Variant, m: &Readings, elevated: bool) -> (r: Way)
    ensures
        match r {
            Way::Direct(plan) => elevated && plan_view(plan@) == unregister_steps(*cfg, *v, *m),
            Way::Elevated(arg) => !elevated && arg@ == "-elevate-unregister"@,
        },
{
    if elevated {
        Way::Direct(unregister_direct(cfg, v, m))
    } else {
        Way::Elevated("-elevate-unregister")
    }
}

/// What came of starting the launcher anew as administrator.
#[derive(Debug)]
pub enum ElevatedRun {
    /// The launcher's own path could not be had.
    NoExe(String),
    /// The rights were refused.
    Refused,
    /// It was started, and there is nothing to wait for.
    NoProcess,
    TimedOut,
    /// It ended; the code where there is one.
    Exited(Option<u32>),
}

pub open spec fn elevated_error(run: ElevatedRun) -> Option<Seq<char>> {
    match run {
        ElevatedRun::NoExe(e) => Some(e@),
        ElevatedRun::Refused => Some("请求管理员权限失败或被取消"@),
        ElevatedRun::NoProcess => None,
        ElevatedRun::TimedOut => Some("提权操作超时"@),
        ElevatedRun::Exited(None) => None,
        ElevatedRun::Exited(Some(code)) => if code == 0 {
            None
        } else {
            Some("提权操作失败（退出码 "@ + text::decimal(code as nat) + "）"@)
        },
    }
}

/// Whether starting anew as administrator succeeded, and why not.
pub fn run_elevated(run: ElevatedRun) -> (r: Result<(), String>)
    ensures
        match r {
            Ok(_) => elevated_error(run) is None,
            Err(e) => elevated_error(run) == Some(e@),
        },
{
    match run {
        ElevatedRun::NoExe(e) => Err(e),
        ElevatedRun::Refused => Err(String::from_str("请求管理员权限失败或被取消")),
        ElevatedRun::NoProcess => Ok(()),
        ElevatedRun::TimedOut => Err(String::from_str("提权操作超时")),
        ElevatedRun::Exited(None) => Ok(()),
        ElevatedRun::Exited(Some(code)) => {
            if code == 0 {
                Ok(())
            } else {
                let number = text::decimal_text(code as u128);
                Err(text::cat3("提权操作失败（退出码 ", number.as_str(), "）"))
            }
        },
    }
}

/// A program and its arguments.
#[derive(Debug)]
pub struct Command {
    pub program: String,
    pub args: Vec<String>,
}

/// How `regsvr32` is called on a library.
pub fn regsvr_command(system_root: &Option<String>, dll: &str, x86: bool, unregister: bool) -> (r:
    Command)
    ensures
        r.program@ == if x86 {
            path::joined_path(
                path::joined_path(system_root_of(system_root.deep_view()), "SysWOW64"@),
                "regsvr32.exe"@,
            )
        } else {
            "regsvr32.exe"@
        },
        r.args.deep_view() == if unregister {
            seq!["/u"@, "/s"@, dll@]
        } else {
            seq!["/s"@, dll@]
        },
{
    let program = if x86 {
        let sysroot = root_text(system_root);
        let below = path::join(sysroot.as_str(), "SysWOW64");
        path::join(below.as_str(), "regsvr32.exe")
    } else {
        String::from_str("regsvr32.exe")
    };
    let mut args: Vec<String> = Vec::new();
    if unregister {
        args.push(String::from_str("/u"));
    }
    args.push(String::from_str("/s"));
    args.push(String::from_str(dll));
    assert(args.deep_view() =~= if unregister {
        seq!["/u"@, "/s"@, dll@]
    } else {
        seq!["/s"@, dll@]
    });
    Command { program, args }
}

/// How `icacls` is called on a library.
pub fn grant_command(dll: &str) -> (r: Command)
    ensures
        r.program@ == "icacls"@,
        r.args.deep_view() == seq![dll@, "/grant"@, ALL_APP_PACKAGES@],
{
    let mut args: Vec<String> = Vec::new();
    args.push(String::from_str(dll));
    args.push(String::from_str("/grant"));
    args.push(String::from_str(ALL_APP_PACKAGES));
    assert(args.deep_view() =~= seq![dll@, "/grant"@, ALL_APP_PACKAGES@]);
    Command { program: String::from_str("icacls"), args }
}

/// What came of running `regsvr32`.
#[derive(Debug)]
pub enum RegsvrRun {
    /// The library is not there; nothing was run.
    NoFile,
    NotStarted(String),
    /// It ended; the code where there is one.
    Exited(Option<i32>),
}

/// A number as text, with a sign where it is negative.
pub open spec fn signed_decimal(n: int) -> Seq<char> {
    if n < 0 {
        "-"@ + text::decimal((-n) as nat)
    } else {
        text::decimal(n as nat)
    }
}

fn signed_text(n: i32) -> (r: String)
    ensures
        r@ == signed_decimal(n as int),
{
    if n < 0 {
        let number = text::decimal_text((-(n as i128)) as u128);
        text::cat2("-", number.as_str())
    } else {
        text::decimal_text(n as u128)
    }
}

pub open spec fn exit_code_text(code: Option<i32>) -> Seq<char> {
    match code {
        Some(n) => "Some("@ + signed_decimal(n as int) + ")"@,
        None => "None"@,
    }
}

pub open spec fn regsvr_error(dll: Seq<char>, run: RegsvrRun) -> Option<Seq<char>> {
    match run {
        RegsvrRun::NoFile => Some("未找到 DLL: "@ + dll),
        RegsvrRun::NotStarted(e) => Some("regsvr32 启动失败 ("@ + dll + "): "@ + e@),
        RegsvrRun::Exited(code) => if code == Some(0i32) {
            None
        } else {
            Some(
                "regsvr32 执行失败 ("@ + match path::file_name_of(dll) {
                    Some(name) => name,
                    None => ""@,
                } + "): 退出码 "@ + exit_code_text(code),
            )
        },
    }
}

/// Whether `regsvr32` did its work on a library, and why not.
pub fn regsvr32(dll: &str, run: RegsvrRun) -> (r: Result<(), String>)
    ensures
        match r {
            Ok(_) => regsvr_error(dll@, run) is None,
            Err(e) => regsvr_error(dll@, run) == Some(e@),
        },
{
    match run {
        RegsvrRun::NoFile => Err(text::cat2("未找到 DLL: ", dll)),
        RegsvrRun::NotStarted(e) => Err(
            text::cat4("regsvr32 启动失败 (", dll, "): ", e.as_str()),
        ),
        RegsvrRun::Exited(code) => {
            let shown = match code {
                Some(n) => {
                    if n == 0 {
                        return Ok(());
                    }
                    let number = signed_text(n);
                    text::cat3("Some(", number.as_str(), ")")
                },
                None => String::from_str("None"),
            };
            let name = match path::file_name(dll) {
                Some(name) => name,
                None => String::from_str(""),
            };
            Err(
                text::cat4(
                    "regsvr32 执行失败 (",
                    name.as_str(),
                    "): 退出码 ",
                    shown.as_str(),
                ),
            )
        },
    }
}

/// How far the copy of a library into the system directory is.
#[derive(Debug)]
pub enum CopyPhase<S> {
    /// The directory is about to be made.
    MakeDir(S),
    /// Leftovers in the directory are about to be removed.
    Clean(S),
    /// The library is about to be copied.
    Copy,
    /// The copy failed for the reason; it is about to be asked whether there is an old one.
    CheckOld(S),
    /// The old copy is about to be moved aside.
    MoveAside(S),
    /// The library is about to be copied for the second time.
    CopyAgain,
    Copied,
    Failed(S),
}

/// What is to be done next.
#[derive(Debug)]
pub enum CopyAction<S> {
    MakeDir(S),
    /// Remove the leftovers from a directory.
    Clean(S),
    Copy(S, S),
    /// Ask whether a file is there.
    Exists(S),
    Rename(S, S),
    Finish(Result<(), S>),
}

pub open spec fn copy_phase_view(p: CopyPhase<String>) -> CopyPhase<Seq<char>> {
    match p {
        CopyPhase::MakeDir(a) => CopyPhase::MakeDir(a@),
        CopyPhase::Clean(a) => CopyPhase::Clean(a@),
        CopyPhase::Copy => CopyPhase::Copy,
        CopyPhase::CheckOld(a) => CopyPhase::CheckOld(a@),
        CopyPhase::MoveAside(a) => CopyPhase::MoveAside(a@),
        CopyPhase::CopyAgain => CopyPhase::CopyAgain,
        CopyPhase::Copied => CopyPhase::Copied,
        CopyPhase::Failed(a) => CopyPhase::Failed(a@),
    }
}

pub open spec fn copy_action_view(a: CopyAction<String>) -> CopyAction<Seq<char>> {
    match a {
        CopyAction::MakeDir(x) => CopyAction::MakeDir(x@),
        CopyAction::Clean(x) => CopyAction::Clean(x@),
        CopyAction::Copy(x, y) => CopyAction::Copy(x@, y@),
        CopyAction::Exists(x) => CopyAction::Exists(x@),
        CopyAction::Rename(x, y) => CopyAction::Rename(x@, y@),
        CopyAction::Finish(Ok(_)) => CopyAction::Finish(Ok(())),
        CopyAction::Finish(Err(e)) => CopyAction::Finish(Err(e@)),
    }
}

/// The copy of a library into the system directory. An old copy that is in use cannot be
/// overwritten: it is moved aside.
#[derive(Debug)]
pub struct SystemCopy {
    pub src: String,
    pub dst: String,
    pub phase: CopyPhase<String>,
}

pub open spec fn first_copy_phase(dst: Seq<char>) -> CopyPhase<Seq<char>> {
    match path::parent_of(dst) {
        Some(dir) => CopyPhase::MakeDir(dir),
        None => CopyPhase::Copy,
    }
}

/// The phase that follows a reply, at the moment `now`.
pub open spec fn next_copy_phase(
    dst: Seq<char>,
    phase: CopyPhase<Seq<char>>,
    reply: ReplyView,
    now: nat,
) -> CopyPhase<Seq<char>> {
    match phase {
        CopyPhase::MakeDir(dir) => match reply.error {
            None => CopyPhase::Clean(dir),
            Some(e) => CopyPhase::Failed("创建系统目录失败 "@ + dir + ": "@ + e),
        },
        CopyPhase::Clean(_) => CopyPhase::Copy,
        CopyPhase::Copy => match reply.error {
            None => CopyPhase::Copied,
            Some(e) => CopyPhase::CheckOld(e),
        },
        CopyPhase::CheckOld(first) => if reply.yes {
            CopyPhase::MoveAside(deploy::beside(dst, "old"@, now))
        } else {
            CopyPhase::Failed("复制到系统目录失败 "@ + dst + ": "@ + first)
        },
        CopyPhase::MoveAside(_) => match reply.error {
            None => CopyPhase::CopyAgain,
            Some(e) => CopyPhase::Failed("旧副本被锁定且改名让路失败 "@ + dst + ": "@ + e),
        },
        CopyPhase::CopyAgain => match reply.error {
            None => CopyPhase::Copied,
            Some(e) => CopyPhase::Failed("让路后复制仍失败 "@ + dst + ": "@ + e),
        },
        CopyPhase::Copied => CopyPhase::Copied,
        CopyPhase::Failed(e) => CopyPhase::Failed(e),
    }
}

pub open spec fn copy_action_in(
    src: Seq<char>,
    dst: Seq<char>,
    phase: CopyPhase<Seq<char>>,
) -> CopyAction<Seq<char>> {
    match phase {
        CopyPhase::MakeDir(dir) => CopyAction::MakeDir(dir),
        CopyPhase::Clean(dir) => CopyAction::Clean(dir),
        CopyPhase::Copy => CopyAction::Copy(src, dst),
        CopyPhase::CheckOld(_) => CopyAction::Exists(dst),
        CopyPhase::MoveAside(aside) => CopyAction::Rename(dst, aside),
        CopyPhase::CopyAgain => CopyAction::Copy(src, dst),
        CopyPhase::Copied => CopyAction::Finish(Ok(())),
        CopyPhase::Failed(e) => CopyAction::Finish(Err(e)),
    }
}

impl SystemCopy {
    pub fn new(src: &str, dst: &str) -> (r: SystemCopy)
        ensures
            r.src@ == src@,
            r.dst@ == dst@,
            copy_phase_view(r.phase) == first_copy_phase(dst@),
    {
        let phase = match path::parent(dst) {
            Some(dir) => CopyPhase::MakeDir(dir),
            None => CopyPhase::Copy,
        };
        SystemCopy { src: String::from_str(src), dst: String::from_str(dst), phase }
    }

    /// What is to be done next.
    pub fn action(&self) -> (r: CopyAction<String>)
        ensures
            copy_action_view(r) == copy_action_in(self.src@, self.dst@, copy_phase_view(self.phase)),
    {
        match &self.phase {
            CopyPhase::MakeDir(dir) => CopyAction::MakeDir(dir.clone()),
            CopyPhase::Clean(dir) => CopyAction::Clean(dir.clone()),
            CopyPhase::Copy => CopyAction::Copy(self.src.clone(), self.dst.clone()),
            CopyPhase::CheckOld(_) => CopyAction::Exists(self.dst.clone()),
            CopyPhase::MoveAside(aside) => CopyAction::Rename(self.dst.clone(), aside.clone()),
            CopyPhase::CopyAgain => CopyAction::Copy(self.src.clone(), self.dst.clone()),
            CopyPhase::Copied => CopyAction::Finish(Ok(())),
            CopyPhase::Failed(e) => CopyAction::Finish(Err(e.clone())),
        }
    }

    /// Takes note of the reply to the last action, at the moment `now`.
    pub fn step(self, reply: Reply, now: u128) -> (r: SystemCopy)
        ensures
            r.src@ == self.src@,
            r.dst@ == self.dst@,
            copy_phase_view(r.phase) == next_copy_phase(
                self.dst@,
                copy_phase_view(self.phase),
                reply.deep_view(),
                now as nat,
            ),
    {
        let dst = self.dst;
        let phase = match self.phase {
            CopyPhase::MakeDir(dir) => match reply.error {
                None => CopyPhase::Clean(dir),
                Some(e) => CopyPhase::Failed(
                    text::cat4("创建系统目录失败 ", dir.as_str(), ": ", e.as_str()),
                ),
            },
            CopyPhase::Clean(_) => CopyPhase::Copy,
            CopyPhase::Copy => match reply.error {
                None => CopyPhase::Copied,
                Some(e) => CopyPhase::CheckOld(e),
            },
            CopyPhase::CheckOld(first) => if reply.yes {
                CopyPhase::MoveAside(deploy::suffix_name(dst.as_str(), "old", now))
            } else {
                CopyPhase::Failed(
                    text::cat4("复制到系统目录失败 ", dst.as_str(), ": ", first.as_str()),
                )
            },
            CopyPhase::MoveAside(_) => match reply.error {
                None => CopyPhase::CopyAgain,
                Some(e) => CopyPhase::Failed(
                    text::cat4(
                        "旧副本被锁定且改名让路失败 ",
                        dst.as_str(),
                        ": ",
                        e.as_str(),
                    ),
                ),
            },
            CopyPhase::CopyAgain => match reply.error {
                None => CopyPhase::Copied,
                Some(e) => CopyPhase::Failed(
                    text::cat4("让路后复制仍失败 ", dst.as_str(), ": ", e.as_str()),
                ),
            },
            CopyPhase::Copied => CopyPhase::Copied,
            CopyPhase::Failed(e) => CopyPhase::Failed(e),
        };
        SystemCopy { src: self.src, dst, phase }
    }
}

/// How many actions are left at most.
pub open spec fn copy_actions_left(phase: CopyPhase<Seq<char>>) -> nat {
    match phase {
        CopyPhase::MakeDir(_) => 6,
        CopyPhase::Clean(_) => 5,
        CopyPhase::Copy => 4,
        CopyPhase::CheckOld(_) => 3,
        CopyPhase::MoveAside(_) => 2,
        CopyPhase::CopyAgain => 1,
        _ => 0,
    }
}

/// A copy into the system directory ends after a few actions, and it ends well only right after a
/// copy that succeeded.
pub proof fn system_copy_ends(
    src: Seq<char>,
    dst: Seq<char>,
    phase: CopyPhase<Seq<char>>,
    reply: ReplyView,
    now: nat,
)
    ensures
        copy_actions_left(phase) > 0 ==> copy_actions_left(next_copy_phase(dst, phase, reply, now))
            < copy_actions_left(phase),
        copy_actions_left(phase) == 0 <==> copy_action_in(src, dst, phase) is Finish,
        (next_copy_phase(dst, phase, reply, now) is Copied && !(phase is Copied)) ==> copy_action_in(
            src,
            dst,
            phase,
        ) == CopyAction::Copy(src, dst) && reply.error is None,
{
}

proof fn trim_slash(s: Seq<char>)
    ensures
        text::trim_end_of(s.push('\\'), seq!['\\']) == text::trim_end_of(s, seq!['\\']),
{
    assert(seq!['\\'][0] == '\\');
    assert(s.push('\\').drop_last() =~= s);
}

/// The kind of slash, and a slash at the end, make no difference between paths.
pub proof fn slashes_do_not_count(p: Seq<char>)
    ensures
        is_same_path(text::replace_char(p, '\\', '/'), p),
        is_same_path(p.push('\\'), p),
        is_same_path(p.push('/'), p),
{
    let one = text::replace_char(p, '/', '\\');
    assert(text::replace_char(text::replace_char(p, '\\', '/'), '/', '\\') =~= one);
    assert(text::replace_char(p.push('\\'), '/', '\\') =~= one.push('\\'));
    assert(text::replace_char(p.push('/'), '/', '\\') =~= one.push('\\'));
    trim_slash(one);
}

proof fn trimming_keeps_lower_case(s: Seq<char>)
    ensures
        text::trim_end_of(text::ascii_lower(s), seq!['\\']) == text::ascii_lower(
            text::trim_end_of(s, seq!['\\']),
        ),
    decreases s.len(),
{
    let low = text::ascii_lower(s);
    if s.len() > 0 {
        assert(low.drop_last() =~= text::ascii_lower(s.drop_last()));
        assert(seq!['\\'][0] == '\\');
        assert(seq!['\\'].contains(s.last()) == (s.last() == '\\'));
        assert(seq!['\\'].contains(low.last()) == (low.last() == '\\'));
        if s.last() == '\\' {
            trimming_keeps_lower_case(s.drop_last());
        }
    }
}

/// Two spellings of a path that differ in the kind of some slashes and in the case of some ASCII
/// letters are the same path, and the same as any third.
pub proof fn spelling_does_not_count(a: Seq<char>, b: Seq<char>, c: Seq<char>)
    requires
        text::ascii_lower(text::replace_char(a, '/', '\\')) == text::ascii_lower(
            text::replace_char(b, '/', '\\'),
        ),
    ensures
        is_same_path(a, b),
        is_same_path(a, c) == is_same_path(b, c),
{
    let x = text::replace_char(a, '/', '\\');
    let y = text::replace_char(b, '/', '\\');
    trimming_keeps_lower_case(x);
    trimming_keeps_lower_case(y);
    text::ascii_case_does_not_count(
        text::trim_end_of(x, seq!['\\']),
        text::trim_end_of(y, seq!['\\']),
    );
}

/// The case of ASCII letters makes no difference between paths.
pub proof fn case_does_not_count(p: Seq<char>)
    ensures
        is_same_path(text::ascii_lower(p), p),
{
    let low = text::ascii_lower(p);
    assert(text::ascii_lower(text::replace_char(low, '/', '\\')) =~= text::ascii_lower(
        text::replace_char(p, '/', '\\'),
    ));
    spelling_does_not_count(low, p, p);
}

/// Separators at the end make no difference between paths, however many there are.
pub proof fn ending_does_not_count(p: Seq<char>, end: Seq<char>)
    requires
        forall|i: int| 0 <= i < end.len() ==> path::is_sep(#[trigger] end[i]),
    ensures
        is_same_path(p + end, p),
    decreases end.len(),
{
    if end.len() == 0 {
        assert(p + end =~= p);
    } else {
        let rest = end.drop_last();
        assert forall|i: int| 0 <= i < rest.len() implies path::is_sep(#[trigger] rest[i]) by {
            assert(rest[i] == end[i]);
        }
        ending_does_not_count(p, rest);
        assert(path::is_sep(end[end.len() - 1]));
        assert(p + end =~= (p + rest).push(end.last()));
        slashes_do_not_count(p + rest);
    }
}

/// Being the same path is an equivalence.
pub proof fn same_path_is_equivalence(a: Seq<char>, b: Seq<char>, c: Seq<char>)
    ensures
        is_same_path(a, a),
        is_same_path(a, b) == is_same_path(b, a),
        is_same_path(a, b) && is_same_path(b, c) ==> is_same_path(a, c),
{
}

/// Only one package owns the copy in the system directory.
pub proof fn one_owner(a: PortableConfig, b: PortableConfig, m: Readings)
    requires
        owns(a, m),
        owns(b, m),
    ensures
        is_same_path(a.root_dir@, b.root_dir@),
{
}

/// Where the copy in the system directory is registered, only one package holds the registration,
/// though its path is that of every package.
pub proof fn one_holder_of_system_copy(
    a: PortableConfig,
    b: PortableConfig,
    v: Variant,
    m: Readings,
)
    requires
        m.registered_dll() matches Some(reg) && is_same_path(
            reg,
            system_copy(m.system_root.deep_view(), v, false),
        ),
        holds_registration(a, v, m),
        holds_registration(b, v, m),
    ensures
        is_same_path(a.root_dir@, b.root_dir@),
{
}

/// What a package may count on: the one that holds the registration is not shut out by others; a
/// registration whose library is gone, or whose package is portable and does not run, can be taken
/// over; and without a registration no other package stands in the way.
pub proof fn registration_can_be_taken_over(
    cfg: PortableConfig,
    v: Variant,
    m: Readings,
    running: bool,
)
    requires
        !is_installation(cfg.root_dir@, m),
        !layout::protected_under(cfg.root_dir@, layout::given(m.protected.deep_view())),
    ensures
        holds_registration(cfg, v, m) ==> conflict_of(cfg, v, m, running) is None,
        m.registered_dll() is None ==> conflict_of(cfg, v, m, running) is None,
        (m.registered_dll() matches Some(reg) && !m.has_file(reg)) ==> conflict_of(cfg, v, m, running)
            is None,
        (m.registered_dll() matches Some(reg) && owner_is_portable(reg, v, m)) ==> conflict_of(
            cfg,
            v,
            m,
            false,
        ) is None,
{
}

/// An installation elsewhere whose library is there is never taken over, whether the service runs
/// or not.
pub proof fn installation_is_never_overwritten(
    cfg: PortableConfig,
    v: Variant,
    m: Readings,
    running: bool,
)
    requires
        cfg.tsf_dll is Some,
        !holds_registration(cfg, v, m),
        m.registered_dll() matches Some(reg) && m.has_file(reg) && !owner_is_portable(reg, v, m),
    ensures
        conflict_of(cfg, v, m, running) is Some,
{
}

/// What stands against portable mode depends on no files but those of [`conflict_probes`].
pub proof fn conflict_reads_probes_only(
    cfg: PortableConfig,
    v: Variant,
    m: Readings,
    n: Readings,
    running: bool,
)
    requires
        n == (Readings { files: n.files, ..m }),
        forall|i: int|
            0 <= i < probes_of(cfg, v, m).len() ==> m.has_file(#[trigger] probes_of(cfg, v, m)[i])
                == n.has_file(probes_of(cfg, v, m)[i]),
    ensures
        conflict_of(cfg, v, m, running) == conflict_of(cfg, v, n, running),
        probes_of(cfg, v, m) == probes_of(cfg, v, n),
{
    let p = probes_of(cfg, v, m);
    assert(m.has_file(p[0]) == n.has_file(p[0]));
    if let Some(reg) = m.registered_dll() {
        assert(n.registered_dll() == Some(reg));
        assert(p[1] == reg);
        assert(m.has_file(p[1]) == n.has_file(p[1]));
        assert(owner_dir(reg, v, m) == owner_dir(reg, v, n));
        if let Some(dir) = owner_dir(reg, v, m) {
            assert(p[2] == path::joined_path(dir, variant::PORTABLE_MARKER_NAME@));
            assert(p[3] == path::joined_path(dir, variant::LEGACY_PORTABLE_MARKER_NAME@));
            assert(m.has_file(p[2]) == n.has_file(p[2]));
            assert(m.has_file(p[3]) == n.has_file(p[3]));
        }
    }
}

/// Whether a step touches what packages share: the system directory or `InstallDir`.
pub open spec fn is_shared(step: Step<Seq<char>>) -> bool {
    match step {
        Step::WriteInstallDir { .. } => true,
        Step::CopyToSystem { .. } => true,
        Step::RemoveFile(_) => true,
        Step::RemoveDir(_) => true,
        Step::DeleteInstallDir { .. } => true,
        _ => false,
    }
}

/// Without the switch, registering touches nothing that packages share, and registers the
/// libraries where they lie.
pub proof fn in_place_registration_shares_nothing(
    cfg: PortableConfig,
    v: Variant,
    root: Option<Seq<char>>,
    dll: Seq<char>,
    i: int,
)
    requires
        !cfg.system_deploy,
        0 <= i < register_steps(cfg, v, root, dll).len(),
    ensures
        !is_shared(register_steps(cfg, v, root, dll)[i].step),
        match register_steps(cfg, v, root, dll)[i].step {
            Step::Regsvr { dll: d, x86, unregister } => !unregister && if x86 {
                cfg.tsf_dll_x86.deep_view() == Some(d)
            } else {
                d == dll
            },
            _ => true,
        },
{
}

/// With the switch, `InstallDir` is written before any library is registered, and what is
/// registered is the copy in the system directory.
pub proof fn install_dir_comes_first(
    cfg: PortableConfig,
    v: Variant,
    root: Option<Seq<char>>,
    dll: Seq<char>,
    i: int,
)
    requires
        cfg.system_deploy,
        0 <= i < register_steps(cfg, v, root, dll).len(),
    ensures
        register_steps(cfg, v, root, dll)[0] == (Planned {
            step: Step::WriteInstallDir { subkey: "Software\\"@ + v.app_name@, dir: cfg.root_dir@ },
            on_error: OnError::Stop,
        }),
        register_steps(cfg, v, root, dll)[i].step matches Step::Regsvr { dll: d, x86, unregister }
            ==> i > 0 && !unregister && d == system_copy(root, v, x86),
{
}

/// Undoing the registration removes nothing that packages share unless this package put it there.
pub proof fn undoing_spares_others(cfg: PortableConfig, v: Variant, m: Readings, i: int)
    requires
        0 <= i < unregister_steps(cfg, v, m).len(),
        is_shared(unregister_steps(cfg, v, m)[i].step),
    ensures
        owns(cfg, m),
{
}

/// Undoing the registration never stops midway: a failure of any step is passed over.
pub proof fn undoing_goes_through(cfg: PortableConfig, v: Variant, m: Readings, i: int)
    requires
        0 <= i < unregister_steps(cfg, v, m).len(),
    ensures
        unregister_steps(cfg, v, m)[i].on_error == OnError::Ignore,
{
}

/// Once a package's library is the registered one, in place or as the copy in the system directory
/// that the package owns, the package holds the registration.
pub proof fn registered_package_holds(cfg: PortableConfig, v: Variant, m: Readings, dll: Seq<char>)
    requires
        cfg.tsf_dll.deep_view() == Some(dll),
        m.registered_dll() matches Some(reg) && ({
            let sys = system_copy(m.system_root.deep_view(), v, false);
            ||| reg == dll && !is_same_path(dll, sys)
            ||| reg == sys && owns(cfg, m)
        }),
    ensures
        holds_registration(cfg, v, m),
{
}

/// After a package registered with the switch on, the machine names it as owner.
pub proof fn registering_makes_owner(cfg: PortableConfig, m: Readings)
    requires
        m.install_dir.deep_view() == Some(cfg.root_dir@),
        text::trimmed(cfg.root_dir@) == cfg.root_dir@,
        cfg.root_dir@.len() > 0,
    ensures
        owns(cfg, m),
{
}

} // verus!
