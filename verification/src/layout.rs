//! Where a portable package lies: its root, its programs, its libraries and its data directory.
use vstd::prelude::*;
use vstd::string::*;

use crate::path;
use crate::text;
use crate::variant;
use crate::variant::Variant;

verus! {

/// Name of the file in the package root that asks for a copy of the libraries in the system
/// directory.
pub const SYSTEM_DEPLOY_NAME: &'static str = "system_deploy";

/// A portable package that was found.
#[derive(Debug)]
pub struct PortableConfig {
    pub root_dir: String,
    pub userdata_dir: String,
    /// The marker under its former name.
    pub portable_marker: String,
    pub service_exe: String,
    /// The settings program; the place where it belongs if it is not there.
    pub setting_exe: String,
    pub tsf_dll: Option<String>,
    pub tsf_dll_x86: Option<String>,
    pub icon_path: Option<String>,
    /// Whether the package asks for registration of a copy in the system directory.
    pub system_deploy: bool,
}

impl Clone for PortableConfig {
    fn clone(&self) -> (r: PortableConfig)
        ensures
            r == *self,
    {
        PortableConfig {
            root_dir: self.root_dir.clone(),
            userdata_dir: self.userdata_dir.clone(),
            portable_marker: self.portable_marker.clone(),
            service_exe: self.service_exe.clone(),
            setting_exe: self.setting_exe.clone(),
            tsf_dll: clone_option(&self.tsf_dll),
            tsf_dll_x86: clone_option(&self.tsf_dll_x86),
            icon_path: clone_option(&self.icon_path),
            system_deploy: self.system_deploy,
        }
    }
}

pub(crate) fn clone_option(s: &Option<String>) -> (r: Option<String>)
    ensures
        r == *s,
{
    match s {
        Some(x) => Some(x.clone()),
        None => None,
    }
}

/// The three places below a root where a program or library may lie.
pub open spec fn places(root: Seq<char>, name: Seq<char>) -> Seq<Seq<char>> {
    seq![
        path::joined_path(root, name),
        path::joined_path(path::joined_path(root, "build"@), name),
        path::joined_path(path::joined_path(root, "build_dev"@), name),
    ]
}

/// The places below a root where the icon may lie.
pub open spec fn icon_places(root: Seq<char>) -> Seq<Seq<char>> {
    seq![
        path::joined_path(
            path::joined_path(path::joined_path(root, "wind_portable"@), "res"@),
            "wind_input_portable.ico"@,
        ),
        path::joined_path(path::joined_path(root, "res"@), "wind_input_portable.ico"@),
        path::joined_path(
            path::joined_path(path::joined_path(root, "wind_tsf"@), "res"@),
            "wind_input.ico"@,
        ),
    ]
}

/// The first of the paths that is among the files.
pub open spec fn first_among(paths: Seq<Seq<char>>, files: Seq<Seq<char>>) -> Option<Seq<char>>
    decreases paths.len(),
{
    if paths.len() == 0 {
        None
    } else if files.contains(paths[0]) {
        Some(paths[0])
    } else {
        first_among(paths.skip(1), files)
    }
}

/// Whether a root holds the service.
pub open spec fn holds_service(root: Seq<char>, v: Variant, files: Seq<Seq<char>>) -> bool {
    first_among(places(root, v.service_name@), files) is Some
}

impl PortableConfig {
    /// Whether this is the package at `root`.
    pub open spec fn describes(self, root: Seq<char>, v: Variant, files: Seq<Seq<char>>) -> bool {
        &&& self.root_dir@ == root
        &&& self.userdata_dir@ == path::joined_path(root, variant::PORTABLE_DATA_DIR@)
        &&& self.portable_marker@ == path::joined_path(root, variant::LEGACY_PORTABLE_MARKER_NAME@)
        &&& Some(self.service_exe@) == first_among(places(root, v.service_name@), files)
        &&& self.setting_exe@ == match first_among(places(root, v.setting_name@), files) {
            Some(p) => p,
            None => path::joined_path(root, v.setting_name@),
        }
        &&& self.tsf_dll.deep_view() == first_among(places(root, v.dll_name@), files)
        &&& self.tsf_dll_x86.deep_view() == first_among(places(root, v.dll_name_x86@), files)
        &&& self.icon_path.deep_view() == first_among(icon_places(root), files)
        &&& self.system_deploy == files.contains(path::joined_path(root, SYSTEM_DEPLOY_NAME@))
    }
}

/// No package was found: the file that is missing.
#[derive(Debug)]
pub struct NotFound {
    pub service_name: String,
}

impl NotFound {
    pub open spec fn text(self) -> Seq<char> {
        "未找到 "@ + self.service_name@ + "，请先构建主服务或将 launcher 放到打包目录中"@
    }

    pub fn message(&self) -> (r: String)
        ensures
            r@ == self.text(),
    {
        text::cat3(
            "未找到 ",
            self.service_name.as_str(),
            "，请先构建主服务或将 launcher 放到打包目录中",
        )
    }
}

/// The index of the first root that holds the service, or the number of roots.
pub open spec fn first_root(roots: Seq<Seq<char>>, v: Variant, files: Seq<Seq<char>>) -> int
    decreases roots.len(),
{
    if roots.len() == 0 || holds_service(roots[0], v, files) {
        0
    } else {
        1 + first_root(roots.skip(1), v, files)
    }
}

fn build_candidates(root: &str, name: &str) -> (r: Vec<String>)
    ensures
        r.deep_view() == places(root@, name@),
{
    let build = path::join(root, "build");
    let build_dev = path::join(root, "build_dev");
    let mut r: Vec<String> = Vec::new();
    r.push(path::join(root, name));
    r.push(path::join(build.as_str(), name));
    r.push(path::join(build_dev.as_str(), name));
    assert(r.deep_view() =~= places(root@, name@));
    r
}

fn icon_candidates(root: &str) -> (r: Vec<String>)
    ensures
        r.deep_view() == icon_places(root@),
{
    let portable = path::join(root, "wind_portable");
    let portable_res = path::join(portable.as_str(), "res");
    let res = path::join(root, "res");
    let tsf = path::join(root, "wind_tsf");
    let tsf_res = path::join(tsf.as_str(), "res");
    let mut r: Vec<String> = Vec::new();
    r.push(path::join(portable_res.as_str(), "wind_input_portable.ico"));
    r.push(path::join(res.as_str(), "wind_input_portable.ico"));
    r.push(path::join(tsf_res.as_str(), "wind_input.ico"));
    assert(r.deep_view() =~= icon_places(root@));
    r
}

fn first_existing(paths: &Vec<String>, files: &Vec<String>) -> (r: Option<String>)
    ensures
        r.deep_view() == first_among(paths.deep_view(), files.deep_view()),
{
    let mut i: usize = 0;
    let ghost all = paths.deep_view();
    assert(all.skip(0) =~= all);
    while i < paths.len()
        invariant
            i <= paths@.len(),
            all == paths.deep_view(),
            first_among(all, files.deep_view()) == first_among(all.skip(i as int), files.deep_view()),
        decreases paths@.len() - i,
    {
        assert(all.skip(i as int)[0] == paths@[i as int]@);
        assert(all.skip(i as int).skip(1) =~= all.skip(i + 1));
        if text::contains_text(files, paths[i].as_str()) {
            return Some(paths[i].clone());
        }
        i = i + 1;
    }
    None
}

fn service_in(root: &str, v: &Variant, files: &Vec<String>) -> (r: Option<String>)
    ensures
        r.deep_view() == first_among(places(root@, v.service_name@), files.deep_view()),
{
    first_existing(&build_candidates(root, v.service_name.as_str()), files)
}

/// The index of the first root that holds the service.
fn find_root(v: &Variant, roots: &Vec<String>, files: &Vec<String>) -> (r: usize)
    ensures
        r == first_root(roots.deep_view(), *v, files.deep_view()),
        r <= roots@.len(),
        r < roots@.len() ==> holds_service(roots.deep_view()[r as int], *v, files.deep_view()),
{
    let ghost all = roots.deep_view();
    let mut i: usize = 0;
    assert(all.skip(0) =~= all);
    while i < roots.len()
        invariant
            i <= roots@.len(),
            all == roots.deep_view(),
            first_root(all, *v, files.deep_view()) == i + first_root(
                all.skip(i as int),
                *v,
                files.deep_view(),
            ),
        decreases roots@.len() - i,
    {
        assert(all.skip(i as int)[0] == roots@[i as int]@);
        assert(all.skip(i as int).skip(1) =~= all.skip(i + 1));
        let svc = service_in(roots[i].as_str(), v, files);
        if svc.is_some() {
            return i;
        }
        i = i + 1;
    }
    i
}

/// The package at the first root that holds the service.
pub fn detect_from(v: &Variant, candidates: &Vec<String>, files: &Vec<String>) -> (r: Result<
    PortableConfig,
    NotFound,
>)
    ensures
        ({
            let roots = candidates.deep_view();
            let i = first_root(roots, *v, files.deep_view());
            match r {
                Ok(cfg) => i < roots.len() && cfg.describes(roots[i], *v, files.deep_view()),
                Err(e) => i == roots.len() && e.service_name@ == v.service_name@,
            }
        }),
{
    let i = find_root(v, candidates, files);
    if i >= candidates.len() {
        return Err(NotFound { service_name: v.service_name.clone() });
    }
    let root = candidates[i].as_str();
    match service_in(root, v, files) {
        None => Err(NotFound { service_name: v.service_name.clone() }),
        Some(service_exe) => {
            let setting = first_existing(
                &build_candidates(root, v.setting_name.as_str()),
                files,
            );
            let setting_exe = match setting {
                Some(p) => p,
                None => path::join(root, v.setting_name.as_str()),
            };
            let switch = path::join(root, SYSTEM_DEPLOY_NAME);
            Ok(
                PortableConfig {
                    root_dir: String::from_str(root),
                    userdata_dir: variant::portable_data_dir(root),
                    portable_marker: path::join(root, variant::LEGACY_PORTABLE_MARKER_NAME),
                    service_exe,
                    setting_exe,
                    tsf_dll: first_existing(&build_candidates(root, v.dll_name.as_str()), files),
                    tsf_dll_x86: first_existing(
                        &build_candidates(root, v.dll_name_x86.as_str()),
                        files,
                    ),
                    icon_path: first_existing(&icon_candidates(root), files),
                    system_deploy: text::contains_text(files, switch.as_str()),
                },
            )
        },
    }
}

/// A directory and the directory above it, where there is one.
pub open spec fn with_parent(dir: Option<Seq<char>>) -> Seq<Seq<char>> {
    match dir {
        None => seq![],
        Some(d) => match path::parent_of(d) {
            None => seq![d],
            Some(p) => seq![d, p],
        },
    }
}

/// The paths of a list, each kept only where it first occurs; case does not count.
pub open spec fn unique(list: Seq<Seq<char>>) -> Seq<Seq<char>>
    decreases list.len(),
{
    if list.len() == 0 {
        seq![]
    } else if exists|i: int|
        0 <= i < list.len() - 1 && text::lowercase(#[trigger] list[i]) == text::lowercase(list.last()) {
        unique(list.drop_last())
    } else {
        unique(list.drop_last()).push(list.last())
    }
}

/// The roots that are tried: the launcher's directory and the working directory, each followed by
/// the directory above it.
pub open spec fn roots_for(exe_dir: Option<Seq<char>>, wd: Option<Seq<char>>) -> Seq<Seq<char>> {
    unique(with_parent(exe_dir) + with_parent(wd))
}

fn push_with_parent(out: &mut Vec<String>, dir: Option<&str>)
    ensures
        final(out).deep_view() == old(out).deep_view() + with_parent(variant::opt_view(dir)),
{
    if let Some(d) = dir {
        out.push(String::from_str(d));
        if let Some(p) = path::parent(d) {
            out.push(p);
        }
    }
    assert(out.deep_view() =~= old(out).deep_view() + with_parent(variant::opt_view(dir)));
}

fn unique_paths(paths: &Vec<String>) -> (r: Vec<String>)
    ensures
        r.deep_view() == unique(paths.deep_view()),
{
    let ghost all = paths.deep_view();
    let mut seen: Vec<String> = Vec::new();
    let mut out: Vec<String> = Vec::new();
    let mut i: usize = 0;
    assert(all.take(0) =~= seq![]);
    while i < paths.len()
        invariant
            i <= paths@.len(),
            all == paths.deep_view(),
            forall|k: int|
                0 <= k < i ==> seen.deep_view().contains(text::lowercase(#[trigger] all[k])),
            forall|j: int|
                0 <= j < seen.deep_view().len() ==> exists|k: int|
                    0 <= k < i && text::lowercase(#[trigger] all[k]) == #[trigger] seen.deep_view()[j],
            out.deep_view() == unique(all.take(i as int)),
        decreases paths@.len() - i,
    {
        let ghost upto = all.take(i + 1);
        assert(upto.drop_last() =~= all.take(i as int));
        assert(upto.last() == paths@[i as int]@);
        let key = text::to_lowercase(paths[i].as_str());
        if !text::contains_text(&seen, key.as_str()) {
            let ghost before = seen.deep_view();
            proof {
                assert forall|k: int| 0 <= k < upto.len() - 1 implies text::lowercase(
                    #[trigger] upto[k],
                ) != text::lowercase(upto.last()) by {
                    assert(upto[k] == all[k]);
                    assert(before.contains(text::lowercase(all[k])));
                }
            }
            seen.push(key);
            out.push(paths[i].clone());
            proof {
                assert(seen.deep_view() =~= before.push(text::lowercase(all[i as int])));
                assert forall|k: int| 0 <= k < i + 1 implies seen.deep_view().contains(
                    text::lowercase(#[trigger] all[k]),
                ) by {
                    if k < i {
                        let j = choose|j: int|
                            0 <= j < before.len() && before[j] == text::lowercase(all[k]);
                        assert(seen.deep_view()[j] == text::lowercase(all[k]));
                    } else {
                        assert(seen.deep_view()[before.len() as int] == text::lowercase(all[k]));
                    }
                }
                assert forall|j: int| 0 <= j < seen.deep_view().len() implies exists|k: int|
                    0 <= k < i + 1 && text::lowercase(#[trigger] all[k])
                        == #[trigger] seen.deep_view()[j] by {
                    if j < before.len() {
                        let k = choose|k: int|
                            0 <= k < i && text::lowercase(#[trigger] all[k]) == before[j];
                        assert(text::lowercase(all[k]) == seen.deep_view()[j]);
                    } else {
                        assert(text::lowercase(all[i as int]) == seen.deep_view()[j]);
                    }
                }
            }
        } else {
            proof {
                let j = choose|j: int|
                    0 <= j < seen.deep_view().len() && seen.deep_view()[j] == key@;
                let k = choose|k: int|
                    0 <= k < i && text::lowercase(#[trigger] all[k]) == seen.deep_view()[j];
                assert(upto[k] == all[k]);
                assert(text::lowercase(upto[k]) == text::lowercase(upto.last()));
            }
        }
        assert(out.deep_view() =~= unique(upto));
        i = i + 1;
    }
    assert(all.take(i as int) =~= all);
    out
}

/// The roots that are tried, in order.
pub fn candidate_roots(exe_dir: Option<&str>, wd: Option<&str>) -> (r: Vec<String>)
    ensures
        r.deep_view() == roots_for(variant::opt_view(exe_dir), variant::opt_view(wd)),
{
    let mut raw: Vec<String> = Vec::new();
    assert(raw.deep_view() =~= seq![]);
    push_with_parent(&mut raw, exe_dir);
    push_with_parent(&mut raw, wd);
    assert(raw.deep_view() =~= with_parent(variant::opt_view(exe_dir)) + with_parent(
        variant::opt_view(wd),
    ));
    unique_paths(&raw)
}

/// The directory of the launcher at `exe`.
pub open spec fn launcher_dir(exe: Option<Seq<char>>) -> Option<Seq<char>> {
    match exe {
        Some(e) => path::parent_of(e),
        None => None,
    }
}

fn roots_of_launcher(exe: Option<&str>, wd: Option<&str>) -> (r: Vec<String>)
    ensures
        r.deep_view() == roots_for(launcher_dir(variant::opt_view(exe)), variant::opt_view(wd)),
{
    let dir = match exe {
        Some(e) => path::parent(e),
        None => None,
    };
    match &dir {
        Some(d) => candidate_roots(Some(d.as_str()), wd),
        None => candidate_roots(None, wd),
    }
}

/// The package of the launcher at `exe`, started in the directory `wd`.
pub fn detect(v: &Variant, exe: Option<&str>, wd: Option<&str>, files: &Vec<String>) -> (r: Result<
    PortableConfig,
    NotFound,
>)
    ensures
        ({
            let roots = roots_for(launcher_dir(variant::opt_view(exe)), variant::opt_view(wd));
            let i = first_root(roots, *v, files.deep_view());
            match r {
                Ok(cfg) => i < roots.len() && cfg.describes(roots[i], *v, files.deep_view()),
                Err(e) => i == roots.len() && e.service_name@ == v.service_name@,
            }
        }),
{
    detect_from(v, &roots_of_launcher(exe, wd), files)
}

/// The root from which the package of the launcher can be copied.
pub fn find_deploy_source_dir(
    v: &Variant,
    exe: Option<&str>,
    wd: Option<&str>,
    files: &Vec<String>,
) -> (r: Option<String>)
    ensures
        ({
            let roots = roots_for(launcher_dir(variant::opt_view(exe)), variant::opt_view(wd));
            let i = first_root(roots, *v, files.deep_view());
            r.deep_view() == if i < roots.len() {
                Some(roots[i])
            } else {
                None
            }
        }),
{
    let roots = roots_of_launcher(exe, wd);
    let i = find_root(v, &roots, files);
    if i < roots.len() {
        Some(roots[i].clone())
    } else {
        None
    }
}

/// The files below one root whose existence detection depends on.
pub open spec fn root_probes(root: Seq<char>, v: Variant) -> Seq<Seq<char>> {
    places(root, v.service_name@) + places(root, v.setting_name@) + places(root, v.dll_name@)
        + places(root, v.dll_name_x86@) + icon_places(root) + seq![
        path::joined_path(root, SYSTEM_DEPLOY_NAME@),
    ]
}

/// The files whose existence detection depends on, root by root.
pub fn detect_probes(v: &Variant, roots: &Vec<String>) -> (r: Vec<String>)
    ensures
        r.deep_view() == roots.deep_view().map_values(|d: Seq<char>| root_probes(d, *v)).flatten(),
{
    let mut out: Vec<String> = Vec::new();
    let ghost lists = roots.deep_view().map_values(|d: Seq<char>| root_probes(d, *v));
    let mut i: usize = 0;
    proof {
        assert(lists.take(0) =~= seq![]);
        assert(lists.take(0).flatten() =~= seq![]);
    }
    while i < roots.len()
        invariant
            i <= roots@.len(),
            lists == roots.deep_view().map_values(|d: Seq<char>| root_probes(d, *v)),
            out.deep_view() == lists.take(i as int).flatten(),
        decreases roots@.len() - i,
    {
        let ghost before = out.deep_view();
        let root = roots[i].as_str();
        push_all(&mut out, build_candidates(root, v.service_name.as_str()));
        push_all(&mut out, build_candidates(root, v.setting_name.as_str()));
        push_all(&mut out, build_candidates(root, v.dll_name.as_str()));
        push_all(&mut out, build_candidates(root, v.dll_name_x86.as_str()));
        push_all(&mut out, icon_candidates(root));
        let ghost most = out.deep_view();
        out.push(path::join(root, SYSTEM_DEPLOY_NAME));
        proof {
            assert(out.deep_view() =~= most.push(path::joined_path(root@, SYSTEM_DEPLOY_NAME@)));
            assert(out.deep_view() =~= before + root_probes(root@, *v));
            assert(lists.take(i + 1).drop_last() =~= lists.take(i as int));
            assert(lists.take(i + 1).last() == root_probes(root@, *v));
            lists.take(i + 1).lemma_flatten_and_flatten_alt_are_equivalent();
            lists.take(i as int).lemma_flatten_and_flatten_alt_are_equivalent();
        }
        i = i + 1;
    }
    assert(lists.take(i as int) =~= lists);
    out
}

pub(crate) fn push_all(out: &mut Vec<String>, more: Vec<String>)
    ensures
        final(out).deep_view() == old(out).deep_view() + more.deep_view(),
{
    let ghost start = out.deep_view();
    let mut i: usize = 0;
    assert(start + more.deep_view().take(0) =~= start);
    while i < more.len()
        invariant
            i <= more@.len(),
            out.deep_view() == start + more.deep_view().take(i as int),
        decreases more@.len() - i,
    {
        let ghost before = out.deep_view();
        out.push(more[i].clone());
        assert(out.deep_view() =~= before.push(more.deep_view()[i as int]));
        assert(start + more.deep_view().take(i + 1) =~= before.push(more.deep_view()[i as int]));
        i = i + 1;
    }
    assert(more.deep_view().take(i as int) =~= more.deep_view());
}

/// The environment variables that name the directories of the system.
pub const PROTECTED_VARS: [&'static str; 4] = [
    "ProgramFiles",
    "ProgramFiles(x86)",
    "ProgramW6432",
    "SystemRoot",
];

/// Whether `dir` lies below `prefix`; case and trailing separators of the prefix do not count.
pub open spec fn lies_below(dir: Seq<char>, prefix: Seq<char>) -> bool {
    let stem = text::trim_end_of(text::lowercase(prefix), seq!['\\', '/']);
    ||| (stem + seq!['\\']).is_prefix_of(text::lowercase(dir))
    ||| (stem + seq!['/']).is_prefix_of(text::lowercase(dir))
}

pub open spec fn protected_under(dir: Seq<char>, prefixes: Seq<Seq<char>>) -> bool {
    exists|i: int| 0 <= i < prefixes.len() && #[trigger] lies_below(dir, prefixes[i])
}

/// The values that are there and not empty.
pub open spec fn given(values: Seq<Option<Seq<char>>>) -> Seq<Seq<char>>
    decreases values.len(),
{
    if values.len() == 0 {
        seq![]
    } else {
        let before = given(values.drop_last());
        match values.last() {
            Some(x) => if x.len() > 0 {
                before.push(x)
            } else {
                before
            },
            None => before,
        }
    }
}

/// Whether a directory lies below one of the prefixes.
pub fn is_protected_under(dir: &str, prefixes: &Vec<String>) -> (r: bool)
    ensures
        r == protected_under(dir@, prefixes.deep_view()),
{
    let lower = text::to_lowercase(dir);
    let slashes: Vec<char> = vec!['\\', '/'];
    proof {
        assert(slashes@ =~= seq!['\\', '/']);
        reveal_strlit("\\");
        reveal_strlit("/");
        assert("\\"@ =~= seq!['\\']);
        assert("/"@ =~= seq!['/']);
    }
    let mut i: usize = 0;
    while i < prefixes.len()
        invariant
            i <= prefixes@.len(),
            lower@ == text::lowercase(dir@),
            slashes@ == seq!['\\', '/'],
            "\\"@ == seq!['\\'],
            "/"@ == seq!['/'],
            forall|k: int| 0 <= k < i ==> !#[trigger] lies_below(dir@, prefixes.deep_view()[k]),
        decreases prefixes@.len() - i,
    {
        let low = text::to_lowercase(prefixes[i].as_str());
        let stem = text::trim_end_chars(low.as_str(), &slashes);
        let with_back = text::cat2(stem.as_str(), "\\");
        let with_slash = text::cat2(stem.as_str(), "/");
        let below = text::starts_with(lower.as_str(), with_back.as_str()) || text::starts_with(
            lower.as_str(),
            with_slash.as_str(),
        );
        assert(below == lies_below(dir@, prefixes.deep_view()[i as int]));
        if below {
            return true;
        }
        i = i + 1;
    }
    false
}

/// Whether a directory lies below a directory of the system, given what the variables of
/// [`PROTECTED_VARS`] hold.
pub fn is_protected_dir(dir: &str, values: &Vec<Option<String>>) -> (r: bool)
    ensures
        r == protected_under(dir@, given(values.deep_view())),
{
    let mut prefixes: Vec<String> = Vec::new();
    let mut i: usize = 0;
    assert(prefixes.deep_view() =~= given(values.deep_view().take(0)));
    while i < values.len()
        invariant
            i <= values@.len(),
            prefixes.deep_view() == given(values.deep_view().take(i as int)),
        decreases values@.len() - i,
    {
        proof {
            assert(values.deep_view().take(i + 1).drop_last() =~= values.deep_view().take(i as int));
        }
        if let Some(x) = &values[i] {
            if !x.as_str().is_empty() {
                let ghost before = prefixes.deep_view();
                prefixes.push(x.clone());
                assert(prefixes.deep_view() =~= before.push(x@));
            }
        }
        i = i + 1;
    }
    assert(values.deep_view().take(i as int) =~= values.deep_view());
    is_protected_under(dir, &prefixes)
}

proof fn first_among_agrees(paths: Seq<Seq<char>>, f: Seq<Seq<char>>, g: Seq<Seq<char>>)
    requires
        forall|k: int| 0 <= k < paths.len() ==> f.contains(#[trigger] paths[k]) == g.contains(paths[k]),
    ensures
        first_among(paths, f) == first_among(paths, g),
    decreases paths.len(),
{
    if paths.len() > 0 {
        let rest = paths.skip(1);
        assert forall|k: int| 0 <= k < rest.len() implies f.contains(#[trigger] rest[k]) == g.contains(
            rest[k],
        ) by {
            assert(rest[k] == paths[k + 1]);
        }
        first_among_agrees(rest, f, g);
        assert(f.contains(paths[0]) == g.contains(paths[0]));
    }
}

/// Two accounts of the file system agree on what detection looks at below a root.
pub open spec fn agree_below(root: Seq<char>, v: Variant, f: Seq<Seq<char>>, g: Seq<Seq<char>>) -> bool {
    forall|k: int|
        0 <= k < root_probes(root, v).len() ==> f.contains(#[trigger] root_probes(root, v)[k])
            == g.contains(root_probes(root, v)[k])
}

proof fn places_agree(root: Seq<char>, v: Variant, f: Seq<Seq<char>>, g: Seq<Seq<char>>)
    requires
        agree_below(root, v, f, g),
    ensures
        first_among(places(root, v.service_name@), f) == first_among(places(root, v.service_name@), g),
        first_among(places(root, v.setting_name@), f) == first_among(places(root, v.setting_name@), g),
        first_among(places(root, v.dll_name@), f) == first_among(places(root, v.dll_name@), g),
        first_among(places(root, v.dll_name_x86@), f) == first_among(places(root, v.dll_name_x86@), g),
        first_among(icon_places(root), f) == first_among(icon_places(root), g),
        f.contains(path::joined_path(root, SYSTEM_DEPLOY_NAME@)) == g.contains(
            path::joined_path(root, SYSTEM_DEPLOY_NAME@),
        ),
{
    let p = root_probes(root, v);
    assert(p.len() == 16);
    assert forall|k: int| 0 <= k < 3 implies f.contains(
        #[trigger] places(root, v.service_name@)[k],
    ) == g.contains(places(root, v.service_name@)[k]) by {
        assert(p[k] == places(root, v.service_name@)[k]);
    }
    assert forall|k: int| 0 <= k < 3 implies f.contains(
        #[trigger] places(root, v.setting_name@)[k],
    ) == g.contains(places(root, v.setting_name@)[k]) by {
        assert(p[k + 3] == places(root, v.setting_name@)[k]);
    }
    assert forall|k: int| 0 <= k < 3 implies f.contains(#[trigger] places(root, v.dll_name@)[k])
        == g.contains(places(root, v.dll_name@)[k]) by {
        assert(p[k + 6] == places(root, v.dll_name@)[k]);
    }
    assert forall|k: int| 0 <= k < 3 implies f.contains(
        #[trigger] places(root, v.dll_name_x86@)[k],
    ) == g.contains(places(root, v.dll_name_x86@)[k]) by {
        assert(p[k + 9] == places(root, v.dll_name_x86@)[k]);
    }
    assert forall|k: int| 0 <= k < 3 implies f.contains(#[trigger] icon_places(root)[k])
        == g.contains(icon_places(root)[k]) by {
        assert(p[k + 12] == icon_places(root)[k]);
    }
    first_among_agrees(places(root, v.service_name@), f, g);
    first_among_agrees(places(root, v.setting_name@), f, g);
    first_among_agrees(places(root, v.dll_name@), f, g);
    first_among_agrees(places(root, v.dll_name_x86@), f, g);
    first_among_agrees(icon_places(root), f, g);
    assert(p[15] == path::joined_path(root, SYSTEM_DEPLOY_NAME@));
}

/// Detection depends on nothing but the files that [`detect_probes`] lists.
pub proof fn detection_reads_probes_only(
    v: Variant,
    roots: Seq<Seq<char>>,
    f: Seq<Seq<char>>,
    g: Seq<Seq<char>>,
)
    requires
        forall|i: int| 0 <= i < roots.len() ==> agree_below(#[trigger] roots[i], v, f, g),
    ensures
        first_root(roots, v, f) == first_root(roots, v, g),
        forall|i: int, cfg: PortableConfig|
            0 <= i < roots.len() ==> #[trigger] cfg.describes(roots[i], v, f) == cfg.describes(
                roots[i],
                v,
                g,
            ),
    decreases roots.len(),
{
    assert forall|i: int, cfg: PortableConfig| 0 <= i < roots.len() implies #[trigger] cfg.describes(
        roots[i],
        v,
        f,
    ) == cfg.describes(roots[i], v, g) by {
        places_agree(roots[i], v, f, g);
    }
    if roots.len() > 0 {
        places_agree(roots[0], v, f, g);
        let rest = roots.skip(1);
        assert forall|i: int| 0 <= i < rest.len() implies agree_below(#[trigger] rest[i], v, f, g) by {
            assert(rest[i] == roots[i + 1]);
        }
        detection_reads_probes_only(v, rest, f, g);
    }
}

/// The root that is taken holds the service, and no earlier one does.
pub proof fn first_root_is_first(roots: Seq<Seq<char>>, v: Variant, files: Seq<Seq<char>>)
    ensures
        0 <= first_root(roots, v, files) <= roots.len(),
        forall|i: int|
            0 <= i < first_root(roots, v, files) ==> !holds_service(#[trigger] roots[i], v, files),
        first_root(roots, v, files) < roots.len() ==> holds_service(
            roots[first_root(roots, v, files)],
            v,
            files,
        ),
    decreases roots.len(),
{
    if roots.len() > 0 && !holds_service(roots[0], v, files) {
        let rest = roots.skip(1);
        first_root_is_first(rest, v, files);
        assert forall|i: int| 0 <= i < first_root(roots, v, files) implies !holds_service(
            #[trigger] roots[i],
            v,
            files,
        ) by {
            if i > 0 {
                assert(rest[i - 1] == roots[i]);
            }
        }
    }
}

/// No two roots that are tried differ by case alone.
pub proof fn unique_has_no_repeats(list: Seq<Seq<char>>)
    ensures
        forall|i: int, j: int|
            0 <= i < j < unique(list).len() ==> text::lowercase(#[trigger] unique(list)[i])
                != text::lowercase(#[trigger] unique(list)[j]),
        forall|i: int|
            0 <= i < unique(list).len() ==> exists|k: int|
                0 <= k < list.len() && list[k] == #[trigger] unique(list)[i],
    decreases list.len(),
{
    if list.len() > 0 {
        let before = list.drop_last();
        unique_has_no_repeats(before);
        let u = unique(before);
        assert forall|i: int| 0 <= i < unique(list).len() implies exists|k: int|
            0 <= k < list.len() && list[k] == #[trigger] unique(list)[i] by {
            if i < u.len() {
                let k = choose|k: int| 0 <= k < before.len() && before[k] == u[i];
                assert(list[k] == unique(list)[i]);
            } else {
                assert(list[list.len() - 1] == unique(list)[i]);
            }
        }
        assert forall|i: int, j: int| 0 <= i < j < unique(list).len() implies text::lowercase(
            #[trigger] unique(list)[i],
        ) != text::lowercase(#[trigger] unique(list)[j]) by {
            if j == u.len() {
                let k = choose|k: int| 0 <= k < before.len() && before[k] == u[i];
                assert(list[k] == u[i]);
            }
        }
    }
}

/// A file with the given name is there, and `found` is where: at the root, or below `build` if it is
/// not there, or below `build_dev` if it is at neither.
pub open spec fn is_found_at(
    found: Seq<char>,
    root: Seq<char>,
    name: Seq<char>,
    files: Seq<Seq<char>>,
) -> bool {
    let top = path::joined_path(root, name);
    let built = path::joined_path(path::joined_path(root, "build"@), name);
    let built_dev = path::joined_path(path::joined_path(root, "build_dev"@), name);
    &&& files.contains(found)
    &&& found == if files.contains(top) {
        top
    } else if files.contains(built) {
        built
    } else {
        built_dev
    }
}

/// A file with the given name is in none of the places where it may lie.
pub open spec fn is_nowhere(root: Seq<char>, name: Seq<char>, files: Seq<Seq<char>>) -> bool {
    &&& !files.contains(path::joined_path(root, name))
    &&& !files.contains(path::joined_path(path::joined_path(root, "build"@), name))
    &&& !files.contains(path::joined_path(path::joined_path(root, "build_dev"@), name))
}

proof fn first_of_three(paths: Seq<Seq<char>>, files: Seq<Seq<char>>)
    requires
        paths.len() == 3,
    ensures
        first_among(paths, files) == if files.contains(paths[0]) {
            Some(paths[0])
        } else if files.contains(paths[1]) {
            Some(paths[1])
        } else if files.contains(paths[2]) {
            Some(paths[2])
        } else {
            None
        },
{
    reveal_with_fuel(first_among, 4);
    let rest = paths.skip(1);
    assert(rest[0] == paths[1]);
    let end = rest.skip(1);
    assert(end[0] == paths[2]);
    assert(end.skip(1).len() == 0);
}

proof fn place_is_found(root: Seq<char>, name: Seq<char>, files: Seq<Seq<char>>)
    ensures
        match first_among(places(root, name), files) {
            Some(p) => is_found_at(p, root, name, files) && !is_nowhere(root, name, files),
            None => is_nowhere(root, name, files),
        },
{
    first_of_three(places(root, name), files);
}

/// What is known of a package that was found: its service is there; each program and library is taken
/// from the first place where it lies, and the settings program is expected at the root where it lies
/// nowhere; what lies nowhere is not invented; and the package asks for copies in the system
/// directory by a file of its own.
pub proof fn found_package_is_there(
    cfg: PortableConfig,
    root: Seq<char>,
    v: Variant,
    files: Seq<Seq<char>>,
)
    requires
        cfg.describes(root, v, files),
    ensures
        cfg.root_dir@ == root,
        cfg.userdata_dir@ == path::joined_path(root, "userdata"@),
        cfg.portable_marker@ == path::joined_path(root, "wind_portable_mode"@),
        is_found_at(cfg.service_exe@, root, v.service_name@, files),
        is_found_at(cfg.setting_exe@, root, v.setting_name@, files) || (is_nowhere(
            root,
            v.setting_name@,
            files,
        ) && cfg.setting_exe@ == path::joined_path(root, v.setting_name@)),
        match cfg.tsf_dll.deep_view() {
            Some(p) => is_found_at(p, root, v.dll_name@, files),
            None => is_nowhere(root, v.dll_name@, files),
        },
        match cfg.tsf_dll_x86.deep_view() {
            Some(p) => is_found_at(p, root, v.dll_name_x86@, files),
            None => is_nowhere(root, v.dll_name_x86@, files),
        },
        cfg.icon_path.deep_view() matches Some(p) ==> files.contains(p),
        cfg.system_deploy == files.contains(path::joined_path(root, "system_deploy"@)),
{
    place_is_found(root, v.service_name@, files);
    place_is_found(root, v.setting_name@, files);
    place_is_found(root, v.dll_name@, files);
    place_is_found(root, v.dll_name_x86@, files);
    first_of_three(icon_places(root), files);
}

/// The icon of a package is the launcher's own, and the service's only where that one is not there.
pub proof fn launcher_icon_comes_first(
    cfg: PortableConfig,
    root: Seq<char>,
    v: Variant,
    files: Seq<Seq<char>>,
)
    requires
        cfg.describes(root, v, files),
    ensures
        ({
            let source = path::joined_path(
                path::joined_path(path::joined_path(root, "wind_portable"@), "res"@),
                "wind_input_portable.ico"@,
            );
            let own = path::joined_path(path::joined_path(root, "res"@), "wind_input_portable.ico"@);
            let service = path::joined_path(
                path::joined_path(path::joined_path(root, "wind_tsf"@), "res"@),
                "wind_input.ico"@,
            );
            &&& files.contains(source) ==> cfg.icon_path.deep_view() == Some(source)
            &&& !files.contains(source) && files.contains(own) ==> cfg.icon_path.deep_view() == Some(own)
            &&& !files.contains(source) && !files.contains(own) && files.contains(service)
                ==> cfg.icon_path.deep_view() == Some(service)
            &&& !files.contains(source) && !files.contains(own) && !files.contains(service)
                ==> cfg.icon_path is None
        }),
{
    first_of_three(icon_places(root), files);
}

/// A package is found where one of the roots holds the service, and then at the first such root.
pub proof fn package_is_found_if_there(roots: Seq<Seq<char>>, v: Variant, files: Seq<Seq<char>>)
    ensures
        ({
            let found = first_root(roots, v, files);
            &&& 0 <= found <= roots.len()
            &&& found < roots.len() ==> !is_nowhere(roots[found], v.service_name@, files)
            &&& forall|i: int|
                0 <= i < found ==> is_nowhere(#[trigger] roots[i], v.service_name@, files)
        }),
{
    first_root_is_first(roots, v, files);
    assert forall|i: int| 0 <= i < roots.len() implies holds_service(#[trigger] roots[i], v, files)
        == !is_nowhere(roots[i], v.service_name@, files) by {
        place_is_found(roots[i], v.service_name@, files);
    }
}

/// No directory is lost when a list is rid of repeats, and the order stays: what is kept stands where
/// it first occurred.
pub proof fn unique_keeps_first_occurrences(list: Seq<Seq<char>>)
    ensures
        forall|k: int|
            0 <= k < list.len() ==> exists|i: int|
                0 <= i < unique(list).len() && text::lowercase(#[trigger] unique(list)[i])
                    == text::lowercase(#[trigger] list[k]),
        list.len() > 0 ==> unique(list).len() > 0 && unique(list)[0] == list[0],
        forall|n: int|
            0 <= n <= list.len() ==> (#[trigger] unique(list.take(n))).is_prefix_of(unique(list)),
    decreases list.len(),
{
    let u = unique(list);
    if list.len() > 0 {
        let rest = list.drop_last();
        let before = unique(rest);
        unique_keeps_first_occurrences(rest);
        assert forall|k: int| 0 <= k < list.len() implies exists|i: int|
            0 <= i < u.len() && text::lowercase(#[trigger] u[i]) == text::lowercase(
                #[trigger] list[k],
            ) by {
            let at = if k < rest.len() {
                k
            } else if exists|i: int|
                0 <= i < list.len() - 1 && text::lowercase(#[trigger] list[i]) == text::lowercase(
                    list.last(),
                ) {
                choose|i: int|
                    0 <= i < list.len() - 1 && text::lowercase(#[trigger] list[i]) == text::lowercase(
                        list.last(),
                    )
            } else {
                k
            };
            assert(text::lowercase(list[at]) == text::lowercase(list[k]));
            if at < rest.len() {
                assert(rest[at] == list[at]);
                let i = choose|i: int|
                    0 <= i < before.len() && text::lowercase(#[trigger] before[i]) == text::lowercase(
                        rest[at],
                    );
                assert(u[i] == before[i]);
            } else {
                assert(u[u.len() - 1] == list.last());
            }
        }
        if rest.len() > 0 {
            assert(u[0] == before[0]);
            assert(rest[0] == list[0]);
        } else {
            assert(u =~= seq![list[0]]) by {
                assert(rest =~= seq![]);
                assert(before =~= seq![]);
            }
        }
        assert forall|n: int| 0 <= n <= list.len() implies (#[trigger] unique(list.take(n))).is_prefix_of(
            u,
        ) by {
            if n < list.len() {
                assert(rest.take(n) =~= list.take(n));
                let part = unique(list.take(n));
                assert(part.is_prefix_of(before));
                assert(part =~= u.subrange(0, part.len() as int)) by {
                    assert(part == before.subrange(0, part.len() as int));
                    assert forall|i: int| 0 <= i < part.len() implies part[i] == u[i] by {
                        assert(part[i] == before[i]);
                    }
                }
            } else {
                assert(list.take(n) =~= list);
                assert(u =~= u.subrange(0, u.len() as int));
            }
        }
    } else {
        assert forall|n: int| 0 <= n <= list.len() implies (#[trigger] unique(list.take(n))).is_prefix_of(
            u,
        ) by {
            assert(list.take(n) =~= list);
            assert(u =~= u.subrange(0, u.len() as int));
        }
    }
}

/// Which roots are tried: the launcher's directory first, then the one above it, then the working
/// directory and the one above that; each once, and no other.
#[verifier::spinoff_prover]
#[verifier::rlimit(40)]
pub proof fn launcher_directory_is_tried_first(exe_dir: Option<Seq<char>>, wd: Option<Seq<char>>)
    ensures
        ({
            let roots = roots_for(exe_dir, wd);
            &&& exe_dir is Some ==> roots.len() > 0 && roots[0] == exe_dir->0
            &&& exe_dir is None && wd is Some ==> roots.len() > 0 && roots[0] == wd->0
            &&& exe_dir is None && wd is None ==> roots.len() == 0
            &&& forall|d: Seq<char>|
                (exe_dir == Some(d) || wd == Some(d) || (exe_dir is Some && path::parent_of(exe_dir->0)
                    == Some(d)) || (wd is Some && path::parent_of(wd->0) == Some(d))) ==> exists|i: int|
                    0 <= i < roots.len() && text::lowercase(#[trigger] roots[i]) == #[trigger]
                    text::lowercase(d)
            &&& forall|i: int|
                0 <= i < roots.len() ==> {
                    let d = #[trigger] roots[i];
                    ||| exe_dir == Some(d)
                    ||| wd == Some(d)
                    ||| exe_dir is Some && path::parent_of(exe_dir->0) == Some(d)
                    ||| wd is Some && path::parent_of(wd->0) == Some(d)
                }
            &&& forall|i: int, j: int|
                0 <= i < j < roots.len() ==> text::lowercase(#[trigger] roots[i]) != text::lowercase(
                    #[trigger] roots[j],
                )
        }),
{
    let list = with_parent(exe_dir) + with_parent(wd);
    unique_keeps_first_occurrences(list);
    unique_has_no_repeats(list);
    let roots = roots_for(exe_dir, wd);
    assert forall|d: Seq<char>|
        (exe_dir == Some(d) || wd == Some(d) || (exe_dir is Some && path::parent_of(exe_dir->0) == Some(d))
            || (wd is Some && path::parent_of(wd->0) == Some(d))) implies exists|i: int|
        0 <= i < roots.len() && text::lowercase(#[trigger] roots[i]) == #[trigger] text::lowercase(d) by {
        let n = with_parent(exe_dir).len() as int;
        let k: int = if exe_dir == Some(d) {
            0
        } else if exe_dir is Some && path::parent_of(exe_dir->0) == Some(d) {
            1
        } else if wd == Some(d) {
            n
        } else {
            n + 1
        };
        assert(list[k] == d);
    }
}

/// A directory lies below another one where the path of the other, without separators at its end,
/// is followed by a separator at the beginning of its path; case does not count.
pub proof fn below_means_behind_separator(dir: Seq<char>, prefix: Seq<char>, n: int)
    requires
        0 <= n <= text::lowercase(prefix).len(),
        forall|k: int|
            n <= k < text::lowercase(prefix).len() ==> path::is_sep(#[trigger] text::lowercase(prefix)[k]),
        n > 0 ==> !path::is_sep(text::lowercase(prefix)[n - 1]),
    ensures
        lies_below(dir, prefix) == ({
            let low = text::lowercase(dir);
            &&& low.len() > n
            &&& low[n] == '\\' || low[n] == '/'
            &&& forall|k: int| 0 <= k < n ==> #[trigger] low[k] == text::lowercase(prefix)[k]
        }),
{
    let low = text::lowercase(dir);
    let whole = text::lowercase(prefix);
    let set = seq!['\\', '/'];
    assert forall|c: char| set.contains(c) == path::is_sep(c) by {
        assert(set[0] == '\\' && set[1] == '/');
    }
    text::end_is_cut_off(whole, set);
    let stem = text::trim_end_of(whole, set);
    let m = stem.len() as int;
    assert(m == n) by {
        if m < n {
            assert(set.contains(whole[n - 1]));
        }
        if n < m {
            assert(stem.last() == whole[m - 1]);
        }
    }
    let back = stem + seq!['\\'];
    let slash = stem + seq!['/'];
    if low.len() > n && (low[n] == '\\' || low[n] == '/') && (forall|k: int|
        0 <= k < n ==> #[trigger] low[k] == whole[k]) {
        if low[n] == '\\' {
            assert(back =~= low.subrange(0, n + 1));
        } else {
            assert(slash =~= low.subrange(0, n + 1));
        }
    }
    if back.is_prefix_of(low) {
        assert(back == low.subrange(0, n + 1));
        assert(low[n] == back[n]);
        assert forall|k: int| 0 <= k < n implies #[trigger] low[k] == whole[k] by {
            assert(low[k] == back[k]);
        }
    }
    if slash.is_prefix_of(low) {
        assert(slash == low.subrange(0, n + 1));
        assert(low[n] == slash[n]);
        assert forall|k: int| 0 <= k < n implies #[trigger] low[k] == whole[k] by {
            assert(low[k] == slash[k]);
        }
    }
}

/// Where no package is found, the user is told which file is missing.
pub proof fn missing_service_is_named(e: NotFound)
    ensures
        e.text() == "未找到 "@ + e.service_name@
            + "，请先构建主服务或将 launcher 放到打包目录中"@,
{
}

} // verus!
