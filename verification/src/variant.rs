//! The two builds of the input method, release and development, and how to tell which one is here.
use vstd::prelude::*;
use vstd::string::*;

use crate::path;
use crate::text;

verus! {

/// Name of the file that marks a portable package, in the root of the package.
pub const PORTABLE_MARKER_NAME: &'static str = "portable_mode";

/// The marker's former name, which existing packages carry.
pub const LEGACY_PORTABLE_MARKER_NAME: &'static str = "wind_portable_mode";

/// Name of the data directory in the root of a portable package.
pub const PORTABLE_DATA_DIR: &'static str = "userdata";

pub const CLSID_RELEASE: &'static str = "{99C2EE30-5C57-45A2-9C63-FB54B34FD90A}";

pub const PROFILE_RELEASE: &'static str =
    "0804:{99C2EE30-5C57-45A2-9C63-FB54B34FD90A}{99C2EE31-5C57-45A2-9C63-FB54B34FD90A}";

pub const CLSID_DEV: &'static str = "{99C2DEB0-5C57-45A2-9C63-FB54B34FD90A}";

pub const PROFILE_DEV: &'static str =
    "0804:{99C2DEB0-5C57-45A2-9C63-FB54B34FD90A}{99C2DEB1-5C57-45A2-9C63-FB54B34FD90A}";

/// The names and identifiers of one build.
#[derive(Debug)]
pub struct Variant {
    pub is_dev: bool,
    /// Name shown in window titles, and name of the installer's uninstall key.
    pub display_name: &'static str,
    /// Name of the data directory and of the autostart value.
    pub app_name: &'static str,
    /// Class identifier of the text service, with its braces.
    pub clsid: &'static str,
    /// Profile text handed to `InstallLayoutOrTip`.
    pub profile_str: &'static str,
    pub service_name: String,
    pub setting_name: String,
    pub dll_name: String,
    pub dll_name_x86: String,
    /// Suffix within the name of the control pipe.
    pub pipe_suffix: String,
    /// Name of the mutex that keeps the launcher single.
    pub mutex_name: String,
}

impl Clone for Variant {
    fn clone(&self) -> (r: Variant)
        ensures
            r == *self,
    {
        Variant {
            is_dev: self.is_dev,
            display_name: self.display_name,
            app_name: self.app_name,
            clsid: self.clsid,
            profile_str: self.profile_str,
            service_name: self.service_name.clone(),
            setting_name: self.setting_name.clone(),
            dll_name: self.dll_name.clone(),
            dll_name_x86: self.dll_name_x86.clone(),
            pipe_suffix: self.pipe_suffix.clone(),
            mutex_name: self.mutex_name.clone(),
        }
    }
}

/// What the names of a build carry behind their stem.
pub open spec fn suffix(is_dev: bool) -> Seq<char> {
    if is_dev {
        "_dev"@
    } else {
        ""@
    }
}

impl Variant {
    /// Whether every field is the one that belongs to the build.
    pub open spec fn well_formed(self) -> bool {
        let s = suffix(self.is_dev);
        &&& self.display_name@ == if self.is_dev {
            "清风输入法开发版"@
        } else {
            "清风输入法"@
        }
        &&& self.app_name@ == if self.is_dev {
            "WindInputDev"@
        } else {
            "WindInput"@
        }
        &&& self.clsid@ == if self.is_dev {
            CLSID_DEV@
        } else {
            CLSID_RELEASE@
        }
        &&& self.profile_str@ == if self.is_dev {
            PROFILE_DEV@
        } else {
            PROFILE_RELEASE@
        }
        &&& self.service_name@ == "wind_input"@ + s + ".exe"@
        &&& self.setting_name@ == "wind_setting"@ + s + ".exe"@
        &&& self.dll_name@ == "wind_tsf"@ + s + ".dll"@
        &&& self.dll_name_x86@ == "wind_tsf_x86"@ + s + ".dll"@
        &&& self.pipe_suffix@ == s
        &&& self.mutex_name@ == "Local\\WindPortableLauncher"@ + s
    }

    /// The names of the release build, or of the development build.
    pub fn new(is_dev: bool) -> (r: Variant)
        ensures
            r.is_dev == is_dev,
            r.well_formed(),
    {
        let s = if is_dev {
            "_dev"
        } else {
            ""
        };
        Variant {
            is_dev,
            display_name: if is_dev {
                "清风输入法开发版"
            } else {
                "清风输入法"
            },
            app_name: if is_dev {
                "WindInputDev"
            } else {
                "WindInput"
            },
            clsid: if is_dev {
                CLSID_DEV
            } else {
                CLSID_RELEASE
            },
            profile_str: if is_dev {
                PROFILE_DEV
            } else {
                PROFILE_RELEASE
            },
            service_name: text::cat3("wind_input", s, ".exe"),
            setting_name: text::cat3("wind_setting", s, ".exe"),
            dll_name: text::cat3("wind_tsf", s, ".dll"),
            dll_name_x86: text::cat3("wind_tsf_x86", s, ".dll"),
            pipe_suffix: String::from_str(s),
            mutex_name: text::cat2("Local\\WindPortableLauncher", s),
        }
    }

    /// The build that the launcher at `exe` belongs to, given which files exist.
    pub fn detect(exe: Option<&str>, files: &Vec<String>) -> (r: Variant)
        ensures
            r.is_dev == dev_in(dirs_of_launcher(opt_view(exe)), files.deep_view()),
            r.well_formed(),
    {
        let dirs = detect_dirs(exe);
        Variant::new(detect_dev_in(&dirs, files))
    }
}

pub open spec fn opt_view(s: Option<&str>) -> Option<Seq<char>> {
    match s {
        Some(x) => Some(x@),
        None => None,
    }
}

/// The directory of the launcher, and the directory above it.
pub open spec fn dirs_of_launcher(exe: Option<Seq<char>>) -> Seq<Seq<char>> {
    match exe {
        None => seq![],
        Some(e) => match path::parent_of(e) {
            None => seq![],
            Some(d) => match path::parent_of(d) {
                None => seq![d],
                Some(p) => seq![d, p],
            },
        },
    }
}

/// Where a directory would hold the development build's service.
pub open spec fn dev_service_paths(dir: Seq<char>) -> Seq<Seq<char>> {
    seq![
        path::joined_path(dir, "wind_input_dev.exe"@),
        path::joined_path(path::joined_path(dir, "build_dev"@), "wind_input_dev.exe"@),
    ]
}

/// Whether one of the directories holds the development build's service.
pub open spec fn dev_in(dirs: Seq<Seq<char>>, files: Seq<Seq<char>>) -> bool {
    exists|i: int|
        0 <= i < dirs.len() && (files.contains(#[trigger] dev_service_paths(dirs[i])[0])
            || files.contains(dev_service_paths(dirs[i])[1]))
}

/// The directories in which the development build is looked for.
pub fn detect_dirs(exe: Option<&str>) -> (r: Vec<String>)
    ensures
        r.deep_view() == dirs_of_launcher(opt_view(exe)),
{
    let mut dirs: Vec<String> = Vec::new();
    if let Some(e) = exe {
        if let Some(d) = path::parent(e) {
            let above = path::parent(d.as_str());
            dirs.push(d);
            if let Some(p) = above {
                dirs.push(p);
            }
        }
    }
    assert(dirs.deep_view() =~= dirs_of_launcher(opt_view(exe)));
    dirs
}

/// The files whose existence decides which build is here.
pub fn detect_probes(dirs: &Vec<String>) -> (r: Vec<String>)
    ensures
        r.deep_view() == dirs.deep_view().map_values(|d: Seq<char>| dev_service_paths(d)).flatten(),
{
    let mut out: Vec<String> = Vec::new();
    let ghost lists = dirs.deep_view().map_values(|d: Seq<char>| dev_service_paths(d));
    let mut i: usize = 0;
    proof {
        assert(lists.take(0) =~= seq![]);
        assert(lists.take(0).flatten() =~= seq![]);
    }
    while i < dirs.len()
        invariant
            i <= dirs@.len(),
            lists == dirs.deep_view().map_values(|d: Seq<char>| dev_service_paths(d)),
            out.deep_view() == lists.take(i as int).flatten(),
        decreases dirs@.len() - i,
    {
        let ghost before = out.deep_view();
        out.push(path::join(dirs[i].as_str(), "wind_input_dev.exe"));
        let sub = path::join(dirs[i].as_str(), "build_dev");
        out.push(path::join(sub.as_str(), "wind_input_dev.exe"));
        proof {
            assert(out.deep_view() =~= before + dev_service_paths(dirs@[i as int]@));
            assert(lists.take(i + 1).drop_last() =~= lists.take(i as int));
            assert(lists.take(i + 1).last() == dev_service_paths(dirs@[i as int]@));
            lists.take(i + 1).lemma_flatten_and_flatten_alt_are_equivalent();
            lists.take(i as int).lemma_flatten_and_flatten_alt_are_equivalent();
        }
        i = i + 1;
    }
    assert(lists.take(i as int) =~= lists);
    out
}

/// Whether one of the directories holds the development build's service, directly or below
/// `build_dev`.
pub fn detect_dev_in(dirs: &Vec<String>, files: &Vec<String>) -> (r: bool)
    ensures
        r == dev_in(dirs.deep_view(), files.deep_view()),
{
    let mut i: usize = 0;
    while i < dirs.len()
        invariant
            i <= dirs@.len(),
            forall|k: int|
                0 <= k < i ==> !files.deep_view().contains(
                    #[trigger] dev_service_paths(dirs.deep_view()[k])[0],
                ) && !files.deep_view().contains(dev_service_paths(dirs.deep_view()[k])[1]),
        decreases dirs@.len() - i,
    {
        let direct = path::join(dirs[i].as_str(), "wind_input_dev.exe");
        let sub = path::join(dirs[i].as_str(), "build_dev");
        let below = path::join(sub.as_str(), "wind_input_dev.exe");
        let ghost here = dirs.deep_view()[i as int];
        assert(direct@ == dev_service_paths(here)[0]);
        assert(below@ == dev_service_paths(here)[1]);
        if text::contains_text(files, direct.as_str()) || text::contains_text(
            files,
            below.as_str(),
        ) {
            return true;
        }
        i = i + 1;
    }
    false
}

/// Whether a directory carries a portable marker, under its present or its former name.
pub open spec fn marked_portable(dir: Seq<char>, files: Seq<Seq<char>>) -> bool {
    ||| files.contains(path::joined_path(dir, PORTABLE_MARKER_NAME@))
    ||| files.contains(path::joined_path(dir, LEGACY_PORTABLE_MARKER_NAME@))
}

/// Whether a directory carries a portable marker, given which files exist.
pub fn has_portable_marker_in(dir: &str, files: &Vec<String>) -> (r: bool)
    ensures
        r == marked_portable(dir@, files.deep_view()),
{
    let present = path::join(dir, PORTABLE_MARKER_NAME);
    let former = path::join(dir, LEGACY_PORTABLE_MARKER_NAME);
    text::contains_text(files, present.as_str()) || text::contains_text(files, former.as_str())
}

/// The data directory of the portable package at `root`.
pub fn portable_data_dir(root: &str) -> (r: String)
    ensures
        r@ == path::joined_path(root@, PORTABLE_DATA_DIR@),
{
    path::join(root, PORTABLE_DATA_DIR)
}

/// The two builds share no name and no identifier, so that they can run side by side.
pub proof fn variants_are_disjoint(dev: Variant, release: Variant)
    requires
        dev.is_dev,
        !release.is_dev,
        dev.well_formed(),
        release.well_formed(),
    ensures
        dev.display_name@ != release.display_name@,
        dev.app_name@ != release.app_name@,
        dev.clsid@ != release.clsid@,
        dev.profile_str@ != release.profile_str@,
        dev.service_name@ != release.service_name@,
        dev.setting_name@ != release.setting_name@,
        dev.dll_name@ != release.dll_name@,
        dev.dll_name_x86@ != release.dll_name_x86@,
        dev.pipe_suffix@ != release.pipe_suffix@,
        dev.mutex_name@ != release.mutex_name@,
{
    reveal_strlit("_dev");
    reveal_strlit("");
    reveal_strlit("清风输入法开发版");
    reveal_strlit("清风输入法");
    reveal_strlit("WindInputDev");
    reveal_strlit("WindInput");
    reveal_strlit("{99C2EE30-5C57-45A2-9C63-FB54B34FD90A}");
    reveal_strlit("{99C2DEB0-5C57-45A2-9C63-FB54B34FD90A}");
    reveal_strlit(
        "0804:{99C2EE30-5C57-45A2-9C63-FB54B34FD90A}{99C2EE31-5C57-45A2-9C63-FB54B34FD90A}",
    );
    reveal_strlit(
        "0804:{99C2DEB0-5C57-45A2-9C63-FB54B34FD90A}{99C2DEB1-5C57-45A2-9C63-FB54B34FD90A}",
    );
    assert(dev.display_name@.len() == 8 && release.display_name@.len() == 5);
    assert(dev.app_name@.len() == 12 && release.app_name@.len() == 9);
    assert(dev.clsid@[5] == 'D');
    assert(release.clsid@[5] == 'E');
    assert(dev.profile_str@[10] == 'D');
    assert(release.profile_str@[10] == 'E');
    assert(dev.service_name@.len() == release.service_name@.len() + 4);
    assert(dev.setting_name@.len() == release.setting_name@.len() + 4);
    assert(dev.dll_name@.len() == release.dll_name@.len() + 4);
    assert(dev.dll_name_x86@.len() == release.dll_name_x86@.len() + 4);
    assert(dev.pipe_suffix@.len() == release.pipe_suffix@.len() + 4);
    assert(dev.mutex_name@.len() == release.mutex_name@.len() + 4);
}

/// The profile of a build names the class of its text service: behind the language stand the
/// identifier of the class and that of the profile.
pub proof fn profile_names_the_class(v: Variant)
    requires
        v.well_formed(),
    ensures
        v.profile_str@.len() == 5 + 2 * v.clsid@.len(),
        v.profile_str@.take(5) == "0804:"@,
        v.profile_str@.subrange(5, 5int + v.clsid@.len()) == v.clsid@,
{
    reveal_strlit("0804:");
    reveal_strlit("{99C2EE30-5C57-45A2-9C63-FB54B34FD90A}");
    reveal_strlit("{99C2DEB0-5C57-45A2-9C63-FB54B34FD90A}");
    reveal_strlit(
        "0804:{99C2EE30-5C57-45A2-9C63-FB54B34FD90A}{99C2EE31-5C57-45A2-9C63-FB54B34FD90A}",
    );
    reveal_strlit(
        "0804:{99C2DEB0-5C57-45A2-9C63-FB54B34FD90A}{99C2DEB1-5C57-45A2-9C63-FB54B34FD90A}",
    );
    assert(v.profile_str@.take(5) =~= "0804:"@);
    assert(v.profile_str@.subrange(5, 5int + v.clsid@.len()) =~= v.clsid@);
}

/// The development build is found where its service lies in the launcher's directory or the one
/// above it, or below `build_dev` in either; and nowhere else.
pub proof fn development_build_is_found(exe: Seq<char>, files: Seq<Seq<char>>)
    ensures
        dev_in(dirs_of_launcher(Some(exe)), files) == ({
            let here = path::parent_of(exe);
            let above = path::parent_of(here->0);
            ||| here is Some && holds_dev_service(here->0, files)
            ||| here is Some && above is Some && holds_dev_service(above->0, files)
        }),
        !dev_in(dirs_of_launcher(None), files),
{
    let dirs = dirs_of_launcher(Some(exe));
    if let Some(here) = path::parent_of(exe) {
        assert(dirs[0] == here);
        assert(dev_service_paths(dirs[0])[0] == path::joined_path(here, "wind_input_dev.exe"@));
        if let Some(above) = path::parent_of(here) {
            assert(dirs[1] == above);
            assert(dev_service_paths(dirs[1])[0] == path::joined_path(above, "wind_input_dev.exe"@));
        }
    }
}

/// A directory holds the service of the development build, directly or below `build_dev`.
pub open spec fn holds_dev_service(dir: Seq<char>, files: Seq<Seq<char>>) -> bool {
    ||| files.contains(path::joined_path(dir, "wind_input_dev.exe"@))
    ||| files.contains(
        path::joined_path(path::joined_path(dir, "build_dev"@), "wind_input_dev.exe"@),
    )
}

/// A directory is that of a portable package where it carries the marker under its present name, or
/// under its former one.
pub proof fn either_marker_counts(dir: Seq<char>, files: Seq<Seq<char>>)
    ensures
        marked_portable(dir, files) == (files.contains(path::joined_path(dir, "portable_mode"@))
            || files.contains(path::joined_path(dir, "wind_portable_mode"@))),
{
}

/// The names of the development build are those of the release build with `_dev` before the
/// extension, or at the end; and its service is the one by which it is found.
pub proof fn development_names_are_marked(dev: Variant, release: Variant)
    requires
        dev.is_dev,
        !release.is_dev,
        dev.well_formed(),
        release.well_formed(),
    ensures
        release.service_name@ == "wind_input.exe"@,
        dev.service_name@ == "wind_input_dev.exe"@,
        release.setting_name@ == "wind_setting.exe"@,
        dev.setting_name@ == "wind_setting_dev.exe"@,
        release.dll_name@ == "wind_tsf.dll"@,
        dev.dll_name@ == "wind_tsf_dev.dll"@,
        release.dll_name_x86@ == "wind_tsf_x86.dll"@,
        dev.dll_name_x86@ == "wind_tsf_x86_dev.dll"@,
        dev.pipe_suffix@ == release.pipe_suffix@ + "_dev"@,
        dev.mutex_name@ == release.mutex_name@ + "_dev"@,
        dev.app_name@ == release.app_name@ + "Dev"@,
{
    reveal_strlit("_dev");
    reveal_strlit("");
    reveal_strlit(".exe");
    reveal_strlit(".dll");
    reveal_strlit("Dev");
    reveal_strlit("wind_input");
    reveal_strlit("wind_setting");
    reveal_strlit("wind_tsf");
    reveal_strlit("wind_tsf_x86");
    reveal_strlit("WindInput");
    reveal_strlit("WindInputDev");
    reveal_strlit("wind_input.exe");
    reveal_strlit("wind_input_dev.exe");
    reveal_strlit("wind_setting.exe");
    reveal_strlit("wind_setting_dev.exe");
    reveal_strlit("wind_tsf.dll");
    reveal_strlit("wind_tsf_dev.dll");
    reveal_strlit("wind_tsf_x86.dll");
    reveal_strlit("wind_tsf_x86_dev.dll");
    assert(release.service_name@ =~= "wind_input.exe"@);
    assert(dev.service_name@ =~= "wind_input_dev.exe"@);
    assert(release.setting_name@ =~= "wind_setting.exe"@);
    assert(dev.setting_name@ =~= "wind_setting_dev.exe"@);
    assert(release.dll_name@ =~= "wind_tsf.dll"@);
    assert(dev.dll_name@ =~= "wind_tsf_dev.dll"@);
    assert(release.dll_name_x86@ =~= "wind_tsf_x86.dll"@);
    assert(dev.dll_name_x86@ =~= "wind_tsf_x86_dev.dll"@);
    assert(dev.pipe_suffix@ =~= release.pipe_suffix@ + "_dev"@);
    assert(dev.mutex_name@ =~= release.mutex_name@ + "_dev"@);
    assert(dev.app_name@ =~= release.app_name@ + "Dev"@);
}

} // verus!
