//! What the command line asks for.
use vstd::prelude::*;

verus! {

/// How a directory is scanned.
#[derive(Debug, Clone, PartialEq, Eq)]
pub enum Mode {
    /// Only the directory's immediate children.
    Dir(String),
    /// Everything below the directory, each recognised file then decoded
    /// in full on a separate thread.
    OpenAll(String),
    /// Everything below the directory.
    Recurse(String),
}

/// Why a command line was refused.
#[derive(Debug, Clone, Copy, PartialEq, Eq, Structural)]
pub enum UsageError {
    /// No target directory was given.
    MissingPath,
    /// The arguments before the directory are not one known flag.
    BadArguments,
}

/// The flag that asks for a recursive scan.
pub open spec fn is_recurse_flag(a: Seq<char>) -> bool {
    a == "--recurse"@ || a == "-r"@
}

/// The flag that asks for a recursive scan with every file decoded.
pub open spec fn is_open_all_flag(a: Seq<char>) -> bool {
    a == "--open-all"@ || a == "-o"@
}

/// The mode that the flags before the target directory `path` select.
pub open spec fn mode_for(path: String, flags: Seq<String>) -> Result<Mode, UsageError> {
    if flags.len() == 0 {
        Ok(Mode::Dir(path))
    } else if flags.len() == 1 && is_recurse_flag(flags[0]@) {
        Ok(Mode::Recurse(path))
    } else if flags.len() == 1 && is_open_all_flag(flags[0]@) {
        Ok(Mode::OpenAll(path))
    } else {
        Err(UsageError::BadArguments)
    }
}

/// Whether `a` is `x` or `y`.
fn is_one_of(a: &String, x: &str, y: &str) -> (r: bool)
    ensures
        r == (a@ == x@ || a@ == y@),
{
    let x = x.to_owned();
    let y = y.to_owned();
    *a == x || *a == y
}

impl Mode {
    /// The mode that the flags `args` select for the target directory `path`:
    /// none for a scan of the immediate children, `-r` / `--recurse` for a
    /// recursive scan, `-o` / `--open-all` for a recursive scan with decoding.
    pub fn from_args(path: String, args: Vec<String>) -> (r: Result<Mode, UsageError>)
        ensures
            r == mode_for(path, args@),
    {
        if args.len() == 0 {
            return Ok(Mode::Dir(path));
        }
        if args.len() == 1 {
            if is_one_of(&args[0], "--recurse", "-r") {
                proof { reveal_strlit("--recurse"); reveal_strlit("-r"); }
                return Ok(Mode::Recurse(path));
            }
            if is_one_of(&args[0], "--open-all", "-o") {
                proof {
                    reveal_strlit("--recurse"); reveal_strlit("-r");
                    reveal_strlit("--open-all"); reveal_strlit("-o");
                }
                return Ok(Mode::OpenAll(path));
            }
        }
        proof {
            reveal_strlit("--recurse"); reveal_strlit("-r");
            reveal_strlit("--open-all"); reveal_strlit("-o");
        }
        Err(UsageError::BadArguments)
    }

    /// The mode that a whole command line (without the program's name) asks
    /// for: the last argument is the target directory, the ones before it
    /// are flags.
    pub fn parse(args: Vec<String>) -> (r: Result<Mode, UsageError>)
        ensures
            args@.len() == 0 ==> r == Err::<Mode, UsageError>(UsageError::MissingPath),
            args@.len() > 0 ==> r == mode_for(args@.last(), args@.drop_last()),
    {
        let mut args = args;
        match args.pop() {
            None => Err(UsageError::MissingPath),
            Some(path) => Mode::from_args(path, args),
        }
    }

    /// The target directory.
    pub fn path(&self) -> (r: &String)
        ensures
            r == match self {
                Mode::Dir(p) => p,
                Mode::OpenAll(p) => p,
                Mode::Recurse(p) => p,
            },
    {
        match self {
            Mode::Dir(p) => p,
            Mode::OpenAll(p) => p,
            Mode::Recurse(p) => p,
        }
    }

    /// Whether everything below the directory is scanned, not only its
    /// immediate children.
    pub fn recursive(&self) -> (r: bool)
        ensures
            r == !(self is Dir),
    {
        !matches!(self, Mode::Dir(_))
    }

    /// Whether each recognised file is also decoded in full.
    pub fn offload(&self) -> (r: bool)
        ensures
            r == (self is OpenAll),
    {
        matches!(self, Mode::OpenAll(_))
    }
}

} // verus!
