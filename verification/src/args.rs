//! The decoded command-line arguments of one invocation, and what follows
//! from them: the paths to work on, the verbosity, the coloring, and the
//! argument vector of the build tool the run may hand over to.

use vstd::prelude::*;

verus! {

/// When to color console output.
#[derive(Clone, Copy, Debug, PartialEq, Eq, Structural)]
pub enum Color {
    Auto,
    Always,
    Never,
}

impl Color {
    /// Whether this mode allows coloring at all.
    pub fn is_enabled(&self) -> (r: bool)
        ensures
            r == !(*self is Never),
    {
        match self {
            Color::Auto | Color::Always => true,
            Color::Never => false,
        }
    }
}

impl Default for Color {
    /// Coloring is decided by the terminal unless asked otherwise.
    fn default() -> (r: Self)
        ensures
            r == Color::Auto,
    {
        Color::Auto
    }
}

/// How much to print.
#[derive(Clone, Copy, Debug, PartialEq, Eq, Structural)]
pub enum Verbosity {
    Quiet,
    Normal,
    Verbose,
}

impl Default for Verbosity {
    fn default() -> (r: Self)
        ensures
            r == Verbosity::Normal,
    {
        Verbosity::Normal
    }
}

/// The decoded arguments, one field per flag or positional.
pub struct Args {
    pub arg_command: Option<String>,
    pub arg_args: Vec<String>,
    pub flag_manifest_path: Option<String>,
    pub flag_template_path: Option<String>,
    pub flag_color: Option<Color>,
    pub flag_quiet: bool,
    pub flag_verbose: bool,
    pub flag_version: bool,
}

/// The verbosity the two boolean flags resolve to: quiet wins over verbose.
pub open spec fn spec_verbosity(quiet: bool, verbose: bool) -> Verbosity {
    if quiet {
        Verbosity::Quiet
    } else if verbose {
        Verbosity::Verbose
    } else {
        Verbosity::Normal
    }
}

impl Args {
    /// The argument vector for handing over to the build tool: its own name,
    /// the subcommand, and the remaining arguments; empty when no subcommand
    /// was given.
    pub fn sub_argv(&self) -> (r: Vec<String>)
        ensures
            self.arg_command matches Some(cmd) ==> r.deep_view() == seq!["cargo"@, cmd@]
                + self.arg_args.deep_view(),
            self.arg_command is None ==> r.deep_view() == Seq::<Seq<char>>::empty(),
    {
        match &self.arg_command {
            Some(cmd) => {
                let mut argv: Vec<String> = Vec::new();
                argv.push("cargo".to_owned());
                argv.push(cmd.clone());
                let mut i: usize = 0;
                while i < self.arg_args.len()
                    invariant
                        i <= self.arg_args@.len(),
                        argv@.len() == i + 2,
                        self.arg_command matches Some(c) && argv@[0]@ == "cargo"@ && argv@[1]@
                            == c@,
                        forall|k: int|
                            0 <= k < i ==> (#[trigger] argv@[k + 2])@ == self.arg_args@[k]@,
                    decreases self.arg_args@.len() - i,
                {
                    argv.push(self.arg_args[i].clone());
                    i = i + 1;
                }
                proof {
                    let dv = argv.deep_view();
                    let rhs = seq!["cargo"@, self.arg_command->0@] + self.arg_args.deep_view();
                    assert(dv.len() == argv@.len());
                    assert(rhs.len() == 2 + self.arg_args@.len());
                    assert forall|k: int| 0 <= k < dv.len() implies dv[k] == rhs[k] by {
                        assert(dv[k] == argv@[k]@);
                        if k >= 2 {
                            assert(argv@[(k - 2) + 2]@ == self.arg_args@[k - 2]@);
                            assert(rhs[k] == self.arg_args.deep_view()[k - 2]);
                            assert(self.arg_args.deep_view()[k - 2] == self.arg_args@[k - 2]@);
                        }
                    }
                    assert(dv =~= rhs);
                }
                argv
            },
            None => {
                let argv: Vec<String> = Vec::new();
                proof {
                    assert(argv.deep_view() =~= Seq::<Seq<char>>::empty());
                }
                argv
            },
        }
    }

    /// The path the manifest is written to: as given, or the conventional
    /// name.
    pub fn manifest_path(&self) -> (r: String)
        ensures
            self.flag_manifest_path matches Some(p) ==> r@ == p@,
            self.flag_manifest_path is None ==> r@ == "Cargo.toml"@,
    {
        match &self.flag_manifest_path {
            Some(p) => p.clone(),
            None => "Cargo.toml".to_owned(),
        }
    }

    /// The path the template is read from: as given; otherwise the first of
    /// the two conventional names that is present, the caller saying which of
    /// them are; or nothing.
    pub fn template_path(&self, yaml_present: bool, yml_present: bool) -> (r: Option<String>)
        ensures
            self.flag_template_path matches Some(p) ==> (r matches Some(q) && q@ == p@),
            self.flag_template_path is None && yaml_present ==> (r matches Some(q) && q@
                == "Cargo.yaml"@),
            self.flag_template_path is None && !yaml_present && yml_present ==> (r matches Some(q)
                && q@ == "Cargo.yml"@),
            self.flag_template_path is None && !yaml_present && !yml_present ==> r is None,
    {
        match &self.flag_template_path {
            Some(p) => Some(p.clone()),
            None => {
                if yaml_present {
                    Some("Cargo.yaml".to_owned())
                } else if yml_present {
                    Some("Cargo.yml".to_owned())
                } else {
                    None
                }
            },
        }
    }

    /// The coloring mode, defaulted when the flag was not given.
    pub fn color(&self) -> (r: Color)
        ensures
            self.flag_color matches Some(c) ==> r == c,
            self.flag_color is None ==> r == Color::Auto,
    {
        match self.flag_color {
            Some(c) => c,
            None => Color::default(),
        }
    }

    /// The verbosity the two boolean flags resolve to.
    pub fn verbosity(&self) -> (r: Verbosity)
        ensures
            r == spec_verbosity(self.flag_quiet, self.flag_verbose),
    {
        if self.flag_quiet {
            Verbosity::Quiet
        } else if self.flag_verbose {
            Verbosity::Verbose
        } else {
            Verbosity::Normal
        }
    }
}

} // verus!
