//! Location of the agent executable.
//!
//! The library never touches the file system. Its caller probes the candidate
//! paths and reports what it saw as `FileProbe` values; the rules that pick
//! the executable from those observations live here.

use vstd::prelude::*;
use vstd::string::StringExecFns;
use crate::text::{chars_of, eq_ignore_ascii_case, window_eq_ignore_ascii_case};

verus! {

/// The file name of the agent executable on POSIX systems.
pub const PROGRAM_NAME: &'static str = "codeagent-wrapper";

/// The file name of the agent executable on Windows.
pub const PROGRAM_NAME_WINDOWS: &'static str = "codeagent-wrapper.exe";

/// The conventions by which a file counts as executable.
#[derive(Clone, Copy, Debug, PartialEq, Eq, Structural)]
pub enum Platform {
    /// A file is executable if any execute bit of its mode is set.
    Posix,
    /// A file is executable if its extension is `exe`, in any case.
    Windows,
}

/// What the caller observed of one candidate path.
#[derive(Clone, Debug, PartialEq, Eq)]
pub struct FileProbe {
    /// The path that was probed.
    pub path: String,
    /// Whether anything exists at the path.
    pub exists: bool,
    /// Whether a regular file exists at the path.
    pub is_file: bool,
    /// The permission bits of the file, where its metadata could be read.
    pub mode: Option<u32>,
    /// The extension of the path's file name, where it has one.
    pub extension: Option<String>,
}

impl FileProbe {
    /// The candidate is a regular file that `platform` would run.
    pub open spec fn executable_on(self, platform: Platform) -> bool {
        &&& self.is_file
        &&& match platform {
            Platform::Posix => self.mode is Some && self.mode->0 & 0o111 != 0,
            Platform::Windows => self.extension is Some && eq_ignore_ascii_case(
                self.extension->0@,
                "exe"@,
            ),
        }
    }
}

/// Why no executable could be resolved.
#[derive(Clone, Debug, PartialEq, Eq)]
pub enum ResolutionError {
    /// The configured path does not exist; no search was made.
    ExplicitPathMissing,
    /// The home directory is unknown, so the install locations could not be
    /// searched.
    HomeUnknown,
    /// No candidate of the search exists.
    NotFound,
    /// The path that was found is not an executable file.
    NotExecutable(String),
}

/// The mathematical content of a `ResolutionError`.
pub enum ResolutionFailure {
    ExplicitPathMissing,
    HomeUnknown,
    NotFound,
    NotExecutable(Seq<char>),
}

impl ResolutionFailure {
    /// The text shown for the failure.
    pub open spec fn rendered(self) -> Seq<char> {
        match self {
            ResolutionFailure::ExplicitPathMissing => "指定的 codeagent-wrapper 路径不存在"@,
            ResolutionFailure::HomeUnknown => "无法获取用户 HOME 目录"@,
            ResolutionFailure::NotFound => "未找到 codeagent-wrapper。请先安装它（或将其放入 PATH 或用户主目录下的安装位置），或在配置中设置 binary_path。"@,
            ResolutionFailure::NotExecutable(path) => "codeagent-wrapper 不是可执行文件: "@ + path,
        }
    }
}

impl ResolutionError {
    /// The text shown for the error.
    pub fn message(&self) -> (text: String)
        ensures
            text@ == self@.rendered(),
    {
        match self {
            ResolutionError::ExplicitPathMissing => "指定的 codeagent-wrapper 路径不存在".to_owned(),
            ResolutionError::HomeUnknown => "无法获取用户 HOME 目录".to_owned(),
            ResolutionError::NotFound => "未找到 codeagent-wrapper。请先安装它（或将其放入 PATH 或用户主目录下的安装位置），或在配置中设置 binary_path。".to_owned(),
            ResolutionError::NotExecutable(path) => {
                let mut text = "codeagent-wrapper 不是可执行文件: ".to_owned();
                text.append(path.as_str());
                text
            },
        }
    }
}

impl View for ResolutionError {
    type V = ResolutionFailure;

    open spec fn view(&self) -> ResolutionFailure {
        match self {
            ResolutionError::ExplicitPathMissing => ResolutionFailure::ExplicitPathMissing,
            ResolutionError::HomeUnknown => ResolutionFailure::HomeUnknown,
            ResolutionError::NotFound => ResolutionFailure::NotFound,
            ResolutionError::NotExecutable(path) => ResolutionFailure::NotExecutable(path@),
        }
    }
}

/// The first candidate of `probes` at which something exists.
pub open spec fn first_present(probes: Seq<FileProbe>) -> Option<FileProbe>
    decreases probes.len(),
{
    if probes.len() == 0 {
        None
    } else if probes[0].exists {
        Some(probes[0])
    } else {
        first_present(probes.skip(1))
    }
}

/// The candidate that the search settles on.
///
/// A configured path is taken if it exists and is an error if it does not:
/// the search is never a fallback for it. Without one, the first candidate
/// that exists is taken: the `PATH` candidates come first, then the install
/// locations, then the development fallback. Whether the candidate can be
/// run is not looked at here.
pub open spec fn located(
    explicit: Option<FileProbe>,
    on_path: Seq<FileProbe>,
    installed: Seq<FileProbe>,
    dev_fallback: Option<FileProbe>,
) -> Result<FileProbe, ResolutionFailure> {
    if let Some(p) = explicit {
        if p.exists {
            Ok(p)
        } else {
            Err(ResolutionFailure::ExplicitPathMissing)
        }
    } else if let Some(p) = first_present(on_path) {
        Ok(p)
    } else if let Some(p) = first_present(installed) {
        Ok(p)
    } else if dev_fallback is Some && dev_fallback->0.exists {
        Ok(dev_fallback->0)
    } else {
        Err(ResolutionFailure::NotFound)
    }
}

/// The path of a located candidate, provided that it is executable.
pub open spec fn checked(found: Result<FileProbe, ResolutionFailure>, platform: Platform) -> Result<
    Seq<char>,
    ResolutionFailure,
> {
    match found {
        Ok(p) => if p.executable_on(platform) {
            Ok(p.path@)
        } else {
            Err(ResolutionFailure::NotExecutable(p.path@))
        },
        Err(e) => Err(e),
    }
}

/// The outcome of a resolution, over views.
pub open spec fn outcome_view(r: Result<String, ResolutionError>) -> Result<
    Seq<char>,
    ResolutionFailure,
> {
    match r {
        Ok(path) => Ok(path@),
        Err(e) => Err(e@),
    }
}

/// The file name of the agent executable on `platform`.
pub fn program_name(platform: Platform) -> (name: &'static str)
    ensures
        name@ == (match platform {
            Platform::Posix => PROGRAM_NAME@,
            Platform::Windows => PROGRAM_NAME_WINDOWS@,
        }),
{
    match platform {
        Platform::Posix => PROGRAM_NAME,
        Platform::Windows => PROGRAM_NAME_WINDOWS,
    }
}

/// Tells whether the probed path is a file that `platform` would run.
pub fn is_executable_file(probe: &FileProbe, platform: Platform) -> (b: bool)
    ensures
        b == probe.executable_on(platform),
{
    if !probe.is_file {
        return false;
    }
    match platform {
        Platform::Posix => match probe.mode {
            Some(mode) => (mode & 0o111) != 0,
            None => false,
        },
        Platform::Windows => match &probe.extension {
            Some(ext) => {
                let v = chars_of(ext.as_str());
                assert(v@.subrange(0, v.len() as int) == v@);
                window_eq_ignore_ascii_case(&v, 0, v.len(), &chars_of("exe"))
            },
            None => false,
        },
    }
}

/// Finds the first candidate of `probes` at which something exists.
pub fn which_in_path(probes: &Vec<FileProbe>) -> (found: Option<usize>)
    ensures
        match found {
            Some(i) => i < probes.len() && first_present(probes@) == Some(probes@[i as int]),
            None => first_present(probes@) is None,
        },
{
    let mut i: usize = 0;
    assert(probes@.skip(0) == probes@);
    while i < probes.len()
        invariant
            i <= probes.len(),
            first_present(probes@.skip(i as int)) == first_present(probes@),
        decreases probes.len() - i,
    {
        let ghost rest = probes@.skip(i as int);
        assert(rest[0] == probes@[i as int]);
        assert(rest.skip(1) == probes@.skip(i + 1));
        if probes[i].exists {
            return Some(i);
        }
        i += 1;
    }
    None
}

/// Picks the agent executable from what was observed of the candidates,
/// without checking that it can be run.
pub fn find_codeagent_wrapper<'a>(
    explicit: Option<&'a FileProbe>,
    on_path: &'a Vec<FileProbe>,
    installed: &'a Vec<FileProbe>,
    dev_fallback: Option<&'a FileProbe>,
) -> (found: Result<&'a FileProbe, ResolutionError>)
    ensures
        match found {
            Ok(p) => located(
                match explicit {
                    Some(e) => Some(*e),
                    None => None,
                },
                on_path@,
                installed@,
                match dev_fallback {
                    Some(d) => Some(*d),
                    None => None,
                },
            ) == Ok::<FileProbe, ResolutionFailure>(*p),
            Err(e) => located(
                match explicit {
                    Some(e) => Some(*e),
                    None => None,
                },
                on_path@,
                installed@,
                match dev_fallback {
                    Some(d) => Some(*d),
                    None => None,
                },
            ) == Err::<FileProbe, ResolutionFailure>(e@),
        },
{
    if let Some(p) = explicit {
        if p.exists {
            return Ok(p);
        }
        return Err(ResolutionError::ExplicitPathMissing);
    }
    if let Some(i) = which_in_path(on_path) {
        return Ok(&on_path[i]);
    }
    if let Some(i) = which_in_path(installed) {
        return Ok(&installed[i]);
    }
    if let Some(p) = dev_fallback {
        if p.exists {
            return Ok(p);
        }
    }
    Err(ResolutionError::NotFound)
}

/// The candidate that a search without development fallback settles on.
///
/// It goes as `located` does, except that install locations which could not
/// be listed, because the home directory is unknown, end the search with an
/// error of their own.
pub open spec fn located_in_home(
    explicit: Option<FileProbe>,
    on_path: Seq<FileProbe>,
    installed: Option<Seq<FileProbe>>,
) -> Result<FileProbe, ResolutionFailure> {
    if let Some(p) = explicit {
        if p.exists {
            Ok(p)
        } else {
            Err(ResolutionFailure::ExplicitPathMissing)
        }
    } else if let Some(p) = first_present(on_path) {
        Ok(p)
    } else if installed is None {
        Err(ResolutionFailure::HomeUnknown)
    } else if let Some(p) = first_present(installed->0) {
        Ok(p)
    } else {
        Err(ResolutionFailure::NotFound)
    }
}

/// Picks the agent executable for a direct invocation: there is no
/// development fallback, and `installed` is `None` where the home directory is
/// unknown.
pub fn find_installed_wrapper<'a>(
    explicit: Option<&'a FileProbe>,
    on_path: &'a Vec<FileProbe>,
    installed: Option<&'a Vec<FileProbe>>,
) -> (found: Result<&'a FileProbe, ResolutionError>)
    ensures
        match found {
            Ok(p) => located_in_home(
                match explicit {
                    Some(e) => Some(*e),
                    None => None,
                },
                on_path@,
                match installed {
                    Some(v) => Some(v@),
                    None => None,
                },
            ) == Ok::<FileProbe, ResolutionFailure>(*p),
            Err(e) => located_in_home(
                match explicit {
                    Some(e) => Some(*e),
                    None => None,
                },
                on_path@,
                match installed {
                    Some(v) => Some(v@),
                    None => None,
                },
            ) == Err::<FileProbe, ResolutionFailure>(e@),
        },
{
    if let Some(p) = explicit {
        if p.exists {
            return Ok(p);
        }
        return Err(ResolutionError::ExplicitPathMissing);
    }
    if let Some(i) = which_in_path(on_path) {
        return Ok(&on_path[i]);
    }
    match installed {
        None => Err(ResolutionError::HomeUnknown),
        Some(v) => match which_in_path(v) {
            Some(i) => Ok(&v[i]),
            None => Err(ResolutionError::NotFound),
        },
    }
}

/// Resolves the agent executable: picks it as `find_codeagent_wrapper` does
/// and accepts it only if `platform` would run it.
pub fn resolve_executable(
    explicit: Option<&FileProbe>,
    on_path: &Vec<FileProbe>,
    installed: &Vec<FileProbe>,
    dev_fallback: Option<&FileProbe>,
    platform: Platform,
) -> (resolved: Result<String, ResolutionError>)
    ensures
        outcome_view(resolved) == checked(
            located(
                match explicit {
                    Some(e) => Some(*e),
                    None => None,
                },
                on_path@,
                installed@,
                match dev_fallback {
                    Some(d) => Some(*d),
                    None => None,
                },
            ),
            platform,
        ),
{
    match find_codeagent_wrapper(explicit, on_path, installed, dev_fallback) {
        Ok(p) => {
            if is_executable_file(p, platform) {
                Ok(p.path.clone())
            } else {
                Err(ResolutionError::NotExecutable(p.path.clone()))
            }
        },
        Err(e) => Err(e),
    }
}

/// Resolves the agent executable for a direct invocation: picks it as
/// `find_installed_wrapper` does and accepts it only if `platform` would run
/// it.
pub fn resolve_installed(
    explicit: Option<&FileProbe>,
    on_path: &Vec<FileProbe>,
    installed: Option<&Vec<FileProbe>>,
    platform: Platform,
) -> (resolved: Result<String, ResolutionError>)
    ensures
        outcome_view(resolved) == checked(
            located_in_home(
                match explicit {
                    Some(e) => Some(*e),
                    None => None,
                },
                on_path@,
                match installed {
                    Some(v) => Some(v@),
                    None => None,
                },
            ),
            platform,
        ),
{
    match find_installed_wrapper(explicit, on_path, installed) {
        Ok(p) => {
            if is_executable_file(p, platform) {
                Ok(p.path.clone())
            } else {
                Err(ResolutionError::NotExecutable(p.path.clone()))
            }
        },
        Err(e) => Err(e),
    }
}

/// A configured path at which nothing exists fails the resolution, whatever
/// the search would have found.
pub proof fn lemma_missing_explicit_path_fails(
    explicit: FileProbe,
    on_path: Seq<FileProbe>,
    installed: Seq<FileProbe>,
    dev_fallback: Option<FileProbe>,
    platform: Platform,
)
    requires
        !explicit.exists,
    ensures
        checked(located(Some(explicit), on_path, installed, dev_fallback), platform) == Err::<
            Seq<char>,
            ResolutionFailure,
        >(ResolutionFailure::ExplicitPathMissing),
        checked(located_in_home(Some(explicit), on_path, Some(installed)), platform) == Err::<
            Seq<char>,
            ResolutionFailure,
        >(ResolutionFailure::ExplicitPathMissing),
{
}

} // verus!
