//! The command-line options of the script runner.
use vstd::prelude::*;
use vstd::std_specs::convert::IntoSpec;

verus! {

/// A type definitions file that can be downloaded from a release.
#[derive(Debug, Clone, Copy, PartialEq, Eq, Structural)]
pub enum DownloadAsset {
    /// The Selene standard library definitions.
    SeleneTypes,
    /// The Luau type definitions.
    LuauTypes,
}

/// What the runner does once the downloads are done.
#[derive(Debug, Clone, Copy, PartialEq, Eq, Structural)]
pub enum RunAction {
    /// Nothing was asked for: print the usage text and fail.
    ShowHelp,
    /// Only downloads were asked for: stop successfully.
    Finish,
    /// Run the script at the given path.
    RunScript,
}

/// The extension of a script path, as far as the runner tells them apart.
#[derive(Debug, Clone, Copy, PartialEq, Eq, Structural)]
pub enum PathExtension {
    Missing,
    Lua,
    Luau,
    Other,
}

/// Which file a script path resolves to.
#[derive(Debug, Clone, Copy, PartialEq, Eq, Structural)]
pub enum ScriptFile {
    /// The path as given.
    AsGiven,
    /// The path with the `lua` extension added.
    WithLua,
    /// The path with the `luau` extension added.
    WithLuau,
}

/// The file that a script path resolves to, from its extension and from
/// which of the candidate files exist: a `lua` path is taken as given, a
/// `luau` path only where it exists, and a path without extension gets
/// `lua`, else `luau`, added where such a file exists.
pub open spec fn script_file_choice(
    ext: PathExtension,
    given_exists: bool,
    lua_exists: bool,
    luau_exists: bool,
) -> Option<ScriptFile> {
    match ext {
        PathExtension::Lua => Some(ScriptFile::AsGiven),
        PathExtension::Luau => if given_exists {
            Some(ScriptFile::AsGiven)
        } else {
            None
        },
        PathExtension::Other => None,
        PathExtension::Missing => if lua_exists {
            Some(ScriptFile::WithLua)
        } else if luau_exists {
            Some(ScriptFile::WithLuau)
        } else {
            None
        },
    }
}

/// Chooses the file that a script path resolves to.
pub fn choose_script_file(
    ext: PathExtension,
    given_exists: bool,
    lua_exists: bool,
    luau_exists: bool,
) -> (r: Option<ScriptFile>)
    ensures
        r == script_file_choice(ext, given_exists, lua_exists, luau_exists),
{
    match ext {
        PathExtension::Lua => Some(ScriptFile::AsGiven),
        PathExtension::Luau => if given_exists {
            Some(ScriptFile::AsGiven)
        } else {
            None
        },
        PathExtension::Other => None,
        PathExtension::Missing => if lua_exists {
            Some(ScriptFile::WithLua)
        } else if luau_exists {
            Some(ScriptFile::WithLuau)
        } else {
            None
        },
    }
}

/// What the runner was asked to do: a script to run with its arguments,
/// and whether to download type definition files.
pub struct Cli {
    script_path: Option<String>,
    script_args: Vec<String>,
    download_selene_types: bool,
    download_luau_types: bool,
}

impl Cli {
    pub closed spec fn path_view(&self) -> Option<Seq<char>> {
        match self.script_path {
            Some(p) => Some(p@),
            None => None,
        }
    }

    pub closed spec fn args_view(&self) -> Seq<Seq<char>> {
        self.script_args@.map_values(|a: String| a@)
    }

    pub closed spec fn selene_view(&self) -> bool {
        self.download_selene_types
    }

    pub closed spec fn luau_view(&self) -> bool {
        self.download_luau_types
    }

    /// Options that run the script at `path` with no arguments.
    pub fn from_path<S>(path: S) -> (r: Self)
        where
            S: Into<String>,
        ensures
            S::obeys_into_spec() ==> r.path_view() == Some(path.into_spec()@),
            r.args_view().len() == 0,
            !r.selene_view(),
            !r.luau_view(),
    {
        let r = Cli {
            script_path: Some(path.into()),
            script_args: Vec::new(),
            download_selene_types: false,
            download_luau_types: false,
        };
        assert(r.args_view() =~= Seq::<Seq<char>>::empty());
        r
    }

    /// Options that run the script at `path` with the arguments `args`.
    pub fn from_path_with_args<S, A>(path: S, args: A) -> (r: Self)
        where
            S: Into<String>,
            A: Into<Vec<String>>,
        ensures
            S::obeys_into_spec() ==> r.path_view() == Some(path.into_spec()@),
            A::obeys_into_spec() ==> r.args_view() == args.into_spec()@.map_values(
                |a: String| a@,
            ),
            !r.selene_view(),
            !r.luau_view(),
    {
        Cli {
            script_path: Some(path.into()),
            script_args: args.into(),
            download_selene_types: false,
            download_luau_types: false,
        }
    }

    /// Options with every field given.
    pub fn with_options(
        script_path: Option<String>,
        script_args: Vec<String>,
        download_selene_types: bool,
        download_luau_types: bool,
    ) -> (r: Self)
        ensures
            r.path_view() == (match script_path {
                Some(p) => Some(p@),
                None => None::<Seq<char>>,
            }),
            r.args_view() == script_args@.map_values(|a: String| a@),
            r.selene_view() == download_selene_types,
            r.luau_view() == download_luau_types,
    {
        Cli { script_path, script_args, download_selene_types, download_luau_types }
    }

    /// The script to run, if one was given.
    pub fn script_path(&self) -> (r: &Option<String>)
        ensures
            (match *r {
                Some(p) => Some(p@),
                None => None::<Seq<char>>,
            }) == self.path_view(),
    {
        &self.script_path
    }

    /// The arguments handed to the script.
    pub fn script_args(&self) -> (r: &Vec<String>)
        ensures
            r@.map_values(|a: String| a@) == self.args_view(),
    {
        &self.script_args
    }

    pub fn download_selene_types(&self) -> (r: bool)
        ensures
            r == self.selene_view(),
    {
        self.download_selene_types
    }

    pub fn download_luau_types(&self) -> (r: bool)
        ensures
            r == self.luau_view(),
    {
        self.download_luau_types
    }

    /// Whether any type definition file is to be downloaded.
    pub fn wants_type_download(&self) -> (r: bool)
        ensures
            r == (self.selene_view() || self.luau_view()),
    {
        self.download_selene_types || self.download_luau_types
    }

    /// The definition files to download, Selene's first.
    pub fn requested_downloads(&self) -> (r: Vec<DownloadAsset>)
        ensures
            r@ == (if self.selene_view() {
                seq![DownloadAsset::SeleneTypes]
            } else {
                Seq::<DownloadAsset>::empty()
            }) + (if self.luau_view() {
                seq![DownloadAsset::LuauTypes]
            } else {
                Seq::<DownloadAsset>::empty()
            }),
    {
        let mut r: Vec<DownloadAsset> = Vec::new();
        if self.download_selene_types {
            r.push(DownloadAsset::SeleneTypes);
        }
        if self.download_luau_types {
            r.push(DownloadAsset::LuauTypes);
        }
        assert(r@ =~= (if self.selene_view() {
            seq![DownloadAsset::SeleneTypes]
        } else {
            Seq::<DownloadAsset>::empty()
        }) + (if self.luau_view() {
            seq![DownloadAsset::LuauTypes]
        } else {
            Seq::<DownloadAsset>::empty()
        }));
        r
    }

    /// What to do after the downloads: run the script if a path was given,
    /// else stop, successfully only where a download was asked for.
    pub fn next_action(&self) -> (r: RunAction)
        ensures
            self.path_view() is Some ==> r == RunAction::RunScript,
            self.path_view() is None && (self.selene_view() || self.luau_view()) ==> r
                == RunAction::Finish,
            self.path_view() is None && !(self.selene_view() || self.luau_view()) ==> r
                == RunAction::ShowHelp,
    {
        if self.script_path.is_some() {
            RunAction::RunScript
        } else if self.wants_type_download() {
            RunAction::Finish
        } else {
            RunAction::ShowHelp
        }
    }
}

impl Default for Cli {
    fn default() -> (r: Self)
        ensures
            r.path_view() is None,
            r.args_view().len() == 0,
            !r.selene_view(),
            !r.luau_view(),
    {
        let r = Cli {
            script_path: None,
            script_args: Vec::new(),
            download_selene_types: false,
            download_luau_types: false,
        };
        assert(r.args_view() =~= Seq::<Seq<char>>::empty());
        r
    }
}

} // verus!
