use crate::device::Device;
use vstd::prelude::*;

verus! {

/// An external program to run, with its arguments.
pub struct Invocation {
    pub program: String,
    pub args: Vec<String>,
    /// Discard what the program prints.
    pub quiet: bool,
}

/// The mathematical value of an [`Invocation`].
pub struct Cmd {
    pub program: Seq<char>,
    pub args: Seq<Seq<char>>,
    pub quiet: bool,
}

impl View for Invocation {
    type V = Cmd;

    open spec fn view(&self) -> Cmd {
        Cmd { program: self.program@, args: texts(self.args@), quiet: self.quiet }
    }
}

/// One unit of work that the caller performs and reports on.
pub enum Step {
    /// The path must be a block device; otherwise the work fails as an invalid device.
    RequireBlockDevice(String),
    /// The path must be a directory; otherwise the work fails as an invalid mountpoint.
    RequireDirectory(String),
    /// The directory must exist, created if missing; otherwise the work fails.
    EnsureDirectory(String),
    /// Run the program; a failure ends the work.
    Run(Invocation),
    /// Run the program; a failure is ignored.
    TryRun(Invocation),
}

/// The mathematical value of a [`Step`].
pub enum StepModel {
    RequireBlockDevice(Seq<char>),
    RequireDirectory(Seq<char>),
    EnsureDirectory(Seq<char>),
    Run(Cmd),
    TryRun(Cmd),
}

impl View for Step {
    type V = StepModel;

    open spec fn view(&self) -> StepModel {
        match self {
            Step::RequireBlockDevice(p) => StepModel::RequireBlockDevice(p@),
            Step::RequireDirectory(p) => StepModel::RequireDirectory(p@),
            Step::EnsureDirectory(p) => StepModel::EnsureDirectory(p@),
            Step::Run(i) => StepModel::Run(i@),
            Step::TryRun(i) => StepModel::TryRun(i@),
        }
    }
}

/// The texts of a sequence of strings.
pub open spec fn texts(v: Seq<String>) -> Seq<Seq<char>> {
    v.map_values(|s: String| s@)
}

pub open spec fn plan_model(steps: Seq<Step>) -> Seq<StepModel> {
    steps.map_values(|s: Step| s@)
}

/// Why a piece of work failed.
pub enum Error {
    /// The path does not designate a block device.
    InvalidDevice(String),
    /// The path is not an existing directory.
    InvalidMountpoint(String),
    /// The directory could not be had.
    DirectoryUnavailable(String),
    /// The program could not run or ended with a failure; `args` are the
    /// arguments it was given, `code` its exit code where it had one.
    CommandFailed { operation: String, args: Vec<String>, code: Option<i32> },
}

/// The mathematical value of an [`Error`].
pub enum ErrorModel {
    InvalidDevice(Seq<char>),
    InvalidMountpoint(Seq<char>),
    DirectoryUnavailable(Seq<char>),
    CommandFailed { operation: Seq<char>, args: Seq<Seq<char>>, code: Option<i32> },
}

impl View for Error {
    type V = ErrorModel;

    open spec fn view(&self) -> ErrorModel {
        match self {
            Error::InvalidDevice(p) => ErrorModel::InvalidDevice(p@),
            Error::InvalidMountpoint(p) => ErrorModel::InvalidMountpoint(p@),
            Error::DirectoryUnavailable(p) => ErrorModel::DirectoryUnavailable(p@),
            Error::CommandFailed { operation, args, code } => ErrorModel::CommandFailed {
                operation: operation@,
                args: texts(args@),
                code: *code,
            },
        }
    }
}

pub open spec fn cmd(program: Seq<char>, args: Seq<Seq<char>>, quiet: bool) -> Cmd {
    Cmd { program, args, quiet }
}

pub open spec fn open_cmd(path: Seq<char>, name: Seq<char>) -> Cmd {
    cmd("cryptsetup"@, seq!["open"@, path, name], false)
}

pub open spec fn close_cmd(name: Seq<char>, silent: bool) -> Cmd {
    cmd("cryptsetup"@, seq!["close"@, name], silent)
}

pub open spec fn mount_cmd(path: Seq<char>, mountpoint: Seq<char>) -> Cmd {
    cmd("mount"@, seq![path, mountpoint], false)
}

pub open spec fn umount_cmd(mountpoint: Seq<char>, flags: Seq<Seq<char>>) -> Cmd {
    cmd("umount"@, flags.push(mountpoint), false)
}

pub open spec fn sbctl_cmd(sub: Seq<char>) -> Cmd {
    cmd("sbctl"@, seq![sub], false)
}

/// Unlocking: the device must exist, then `cryptsetup open` must succeed.
pub open spec fn open_steps(dev: Seq<char>, name: Seq<char>) -> Seq<StepModel> {
    seq![StepModel::RequireBlockDevice(dev), StepModel::Run(open_cmd(dev, name))]
}

/// Mounting: the device and the mountpoint must exist, then `mount` must succeed.
pub open spec fn mount_steps(dev: Seq<char>, mountpoint: Seq<char>) -> Seq<StepModel> {
    seq![
        StepModel::RequireBlockDevice(dev),
        StepModel::RequireDirectory(mountpoint),
        StepModel::Run(mount_cmd(dev, mountpoint)),
    ]
}

/// A copy of a list of strings.
pub fn copy_texts(v: &Vec<String>) -> (r: Vec<String>)
    ensures
        texts(r@) == texts(v@),
{
    let mut r: Vec<String> = Vec::new();
    let mut i: usize = 0;
    while i < v.len()
        invariant
            i <= v@.len(),
            texts(r@) =~= texts(v@).take(i as int),
        decreases v@.len() - i,
    {
        let ghost prev = r@;
        r.push(v[i].clone());
        assert(texts(r@) =~= texts(prev).push(v@[i as int]@));
        i = i + 1;
    }
    assert(texts(v@).take(v@.len() as int) =~= texts(v@));
    r
}

fn text(s: &str) -> (r: String)
    ensures
        r@ == s@,
{
    s.to_string()
}

/// Unlock `dev` under the mapper name `name`.
pub fn cryptsetup_open(dev: &Device, name: &str) -> (r: Vec<Step>)
    ensures
        plan_model(r@) == open_steps(dev.path_spec(), name@),
{
    let path = dev.full_path();
    let args: Vec<String> = vec![text("open"), path.clone(), text(name)];
    let r: Vec<Step> = vec![
        Step::RequireBlockDevice(path),
        Step::Run(Invocation { program: text("cryptsetup"), args, quiet: false }),
    ];
    assert(texts(r@[1]->Run_0.args@) =~= seq!["open"@, dev.path_spec(), name@]);
    assert(plan_model(r@) =~= open_steps(dev.path_spec(), name@));
    r
}

/// Release the unlocked device `name`; `silent` discards what the tool prints.
pub fn cryptsetup_close(name: &str, silent: bool) -> (r: Invocation)
    ensures
        r@ == close_cmd(name@, silent),
{
    let args: Vec<String> = vec![text("close"), text(name)];
    let r = Invocation { program: text("cryptsetup"), args, quiet: silent };
    assert(r@.args =~= close_cmd(name@, silent).args);
    r
}

/// Attach `dev` at `mountpoint`.
pub fn mount(dev: &Device, mountpoint: &str) -> (r: Vec<Step>)
    ensures
        plan_model(r@) == mount_steps(dev.path_spec(), mountpoint@),
{
    let path = dev.full_path();
    let args: Vec<String> = vec![path.clone(), text(mountpoint)];
    let r: Vec<Step> = vec![
        Step::RequireBlockDevice(path),
        Step::RequireDirectory(text(mountpoint)),
        Step::Run(Invocation { program: text("mount"), args, quiet: false }),
    ];
    assert(texts(r@[2]->Run_0.args@) =~= seq![dev.path_spec(), mountpoint@]);
    assert(plan_model(r@) =~= mount_steps(dev.path_spec(), mountpoint@));
    r
}

/// Run `sbctl` with one subcommand.
pub fn sbctl(sub: &str) -> (r: Invocation)
    ensures
        r@ == sbctl_cmd(sub@),
{
    let args: Vec<String> = vec![text(sub)];
    let r = Invocation { program: text("sbctl"), args, quiet: false };
    assert(r@.args =~= sbctl_cmd(sub@).args);
    r
}

/// Detach `mountpoint`, with the given flags before it.
pub fn umount(mountpoint: &str, flags: &[&str]) -> (r: Invocation)
    ensures
        r@ == umount_cmd(mountpoint@, flags@.map_values(|f: &str| f@)),
{
    let mut args: Vec<String> = Vec::new();
    let mut i: usize = 0;
    while i < flags.len()
        invariant
            i <= flags@.len(),
            texts(args@) =~= flags@.subrange(0, i as int).map_values(|f: &str| f@),
        decreases flags@.len() - i,
    {
        let ghost prev = args@;
        args.push(text(flags[i]));
        assert(texts(args@) =~= texts(prev).push(flags@[i as int]@));
        assert(flags@.subrange(0, i + 1) =~= flags@.subrange(0, i as int).push(flags@[i as int]));
        i = i + 1;
    }
    assert(flags@.subrange(0, flags@.len() as int) =~= flags@);
    args.push(text(mountpoint));
    let r = Invocation { program: text("umount"), args, quiet: false };
    assert(r@.args =~= flags@.map_values(|f: &str| f@).push(mountpoint@));
    r
}

} // verus!
