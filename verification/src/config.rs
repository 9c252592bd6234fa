//! Project configuration: the validated, typed settings of one project.
//!
//! The configuration document on disk is parsed by an external loader; this
//! module holds the resulting typed structure and the two rules applied to it
//! once, at load time: validity (a project must have a name) and compiler
//! resolution (a missing override falls back to the default toolchain).

use vstd::prelude::*;

verus! {

/// The `package` section of a project's configuration document.
pub struct Package {
    /// Project name; also the file name of the linked binary. Must be non-empty.
    pub name: String,
    /// Library names to link against, in order (order affects link resolution).
    pub deps: Vec<String>,
    /// Include search paths, in order.
    pub include_paths: Vec<String>,
    /// Library search paths, in order.
    pub dep_paths: Vec<String>,
    /// Optional toolchain override; `None` resolves to the default compiler.
    pub compiler: Option<String>,
    /// Extra flags passed verbatim to every compile and link invocation.
    pub flags: Vec<String>,
}

/// A whole configuration document.
pub struct Config {
    pub package: Package,
}

/// Mathematical model of a [`Package`]: every string as a sequence of
/// characters, every list as a sequence.
pub struct PackageModel {
    pub name: Seq<char>,
    pub deps: Seq<Seq<char>>,
    pub include_paths: Seq<Seq<char>>,
    pub dep_paths: Seq<Seq<char>>,
    pub compiler: Option<Seq<char>>,
    pub flags: Seq<Seq<char>>,
}

/// The views of a sequence of strings.
pub open spec fn string_views(ss: Seq<String>) -> Seq<Seq<char>> {
    ss.map_values(|s: String| s@)
}

impl View for Package {
    type V = PackageModel;

    open spec fn view(&self) -> PackageModel {
        PackageModel {
            name: self.name@,
            deps: string_views(self.deps@),
            include_paths: string_views(self.include_paths@),
            dep_paths: string_views(self.dep_paths@),
            compiler: match self.compiler {
                Option::Some(c) => Option::Some(c@),
                Option::None => Option::None,
            },
            flags: string_views(self.flags@),
        }
    }
}

impl View for Config {
    type V = PackageModel;

    open spec fn view(&self) -> PackageModel {
        self.package@
    }
}

/// A configuration is valid exactly when the project name is non-empty.
pub open spec fn config_valid(p: PackageModel) -> bool {
    p.name.len() > 0
}

/// The resolved toolchain name: the override if one was configured, the
/// default compiler otherwise.
pub open spec fn resolved_compiler_spec(p: PackageModel) -> Seq<char> {
    match p.compiler {
        Option::Some(c) => c,
        Option::None => default_compiler_name(),
    }
}

/// The default toolchain invoked when no override is configured.
pub open spec fn default_compiler_name() -> Seq<char> {
    "g++"@
}

impl Config {
    /// A fresh configuration for a project of the given name: no dependencies,
    /// no extra paths or flags, default compiler.
    pub fn new(name: &str) -> (c: Config)
        ensures
            c@.name == name@,
            c@.deps == Seq::<Seq<char>>::empty(),
            c@.include_paths == Seq::<Seq<char>>::empty(),
            c@.dep_paths == Seq::<Seq<char>>::empty(),
            c@.compiler is None,
            c@.flags == Seq::<Seq<char>>::empty(),
    {
        let c = Config {
            package: Package {
                name: name.to_owned(),
                deps: Vec::new(),
                include_paths: Vec::new(),
                dep_paths: Vec::new(),
                compiler: Option::None,
                flags: Vec::new(),
            },
        };
        proof {
            assert(c@.deps =~= Seq::<Seq<char>>::empty());
            assert(c@.include_paths =~= Seq::<Seq<char>>::empty());
            assert(c@.dep_paths =~= Seq::<Seq<char>>::empty());
            assert(c@.flags =~= Seq::<Seq<char>>::empty());
        }
        c
    }

    /// Whether this configuration may start a build.
    pub fn is_valid(&self) -> (b: bool)
        ensures
            b == config_valid(self@),
    {
        !self.package.name.as_str().is_empty()
    }
}

impl Package {
    /// The toolchain name every compile and link invocation will use.
    pub fn resolved_compiler(&self) -> (r: String)
        ensures
            r@ == resolved_compiler_spec(self@),
    {
        match &self.compiler {
            Option::Some(c) => c.clone(),
            Option::None => {
                let d = String::from_str("g++");
                d
            },
        }
    }
}

} // verus!
