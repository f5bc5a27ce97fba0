use crate::boot::{self, EncryptedBoot, BOOT_MAPPER_NAME, mount_plan, reset_plan, unmount_plan};
use crate::command::{self, Invocation, Step, StepModel, cmd, plan_model, sbctl_cmd, texts};
use crate::grub::{self, Grub, install_args, mkconfig_steps};
use crate::session::Scope;
use vstd::prelude::*;

verus! {

/// The whole configuration: the boot stack and the boot loader.
pub struct Config {
    pub boot: boot::Config,
    pub grub: grub::Config,
}

impl Default for Config {
    fn default() -> (r: Config)
        ensures
            r.boot.device@ == Seq::<char>::empty(),
            r.boot.mountpoint@ == Seq::<char>::empty(),
            r.boot.efi.device@ == Seq::<char>::empty(),
            r.boot.efi.mountpoint@ == Seq::<char>::empty(),
            r.grub.target@ == "x86_64-efi"@,
            r.grub.bootloader_id@ == "GRUB"@,
            r.grub.add_modules@.len() == 0,
    {
        Config { boot: boot::Config::default(), grub: grub::Config::default() }
    }
}

/// The commands of the program, each as the steps it performs.
pub struct Cryptboot(Config);

fn copy_boot(c: &boot::Config) -> (r: boot::Config)
    ensures
        r == *c,
{
    boot::Config {
        device: c.device.clone(),
        mountpoint: c.mountpoint.clone(),
        efi: boot::Efi { device: c.efi.device.clone(), mountpoint: c.efi.mountpoint.clone() },
    }
}

fn copy_grub(c: &grub::Config) -> (r: grub::Config)
    ensures
        r.target == c.target,
        r.bootloader_id == c.bootloader_id,
        texts(r.add_modules@) == texts(c.add_modules@),
{
    let add_modules = command::copy_texts(&c.add_modules);
    grub::Config { target: c.target.clone(), bootloader_id: c.bootloader_id.clone(), add_modules }
}

impl Cryptboot {
    pub closed spec fn config(&self) -> Config {
        self.0
    }

    pub fn from_config(config: Config) -> (r: Cryptboot)
        ensures
            r.config() == config,
    {
        Cryptboot(config)
    }

    /// A manager for the configured stack.
    pub fn manager(&self) -> (r: EncryptedBoot)
        ensures
            r.config == self.config().boot,
            r.name@ == BOOT_MAPPER_NAME@,
            !r.umount_on_drop,
    {
        EncryptedBoot::from_config(copy_boot(&self.0.boot))
    }

    /// Mounting from whatever state: reset first, then mount.
    pub fn mount(&self) -> (r: (EncryptedBoot, Vec<Step>))
        ensures
            r.0.config == self.config().boot,
            r.0.name@ == BOOT_MAPPER_NAME@,
            !r.0.umount_on_drop,
            plan_model(r.1@) == reset_plan(r.0.config) + mount_plan(r.0.config),
    {
        let m = self.manager();
        let mut steps = m.reset();
        let mut rest = m.mount();
        let ghost (a, b) = (steps@, rest@);
        steps.append(&mut rest);
        assert(plan_model(steps@) =~= plan_model(a) + plan_model(b));
        (m, steps)
    }

    /// Taking the stack down.
    pub fn umount(&self) -> (r: Vec<Step>)
        ensures
            plan_model(r@) == unmount_plan(self.config().boot),
    {
        let m = self.manager();
        m.umount()
    }

    /// Reset, then mount: the acquiring part of every command that works on
    /// the mounted stack.
    fn acquire(&self) -> (r: Vec<Step>)
        ensures
            plan_model(r@) == reset_plan(self.config().boot) + mount_plan(self.config().boot),
    {
        let (_, steps) = self.mount();
        steps
    }

    /// Installing the boot loader with the stack mounted: generate its
    /// configuration, install, then sign unless told not to; the stack is
    /// taken down afterwards whatever the work gave.
    pub fn grub_install(&self, no_sign: bool) -> (r: Scope)
        ensures
            r.wf(),
            r.acquiring().plan() == reset_plan(self.config().boot) + mount_plan(self.config().boot),
            r.working().plan() == install_work(self.config(), no_sign),
            r.releasing().plan() == unmount_plan(self.config().boot),
            r.acquiring().seen().len() == 0,
            r.working().seen().len() == 0,
            r.releasing().seen().len() == 0,
    {
        let g = Grub::from_config(copy_grub(&self.0.grub));
        assert(install_args(g.config(), self.config().boot.efi.mountpoint@) =~= install_args(self.config().grub, self.config().boot.efi.mountpoint@));
        let mut work = g.mkconfig(&self.0.boot);
        let mut install = g.install(&self.0.boot);
        let ghost (a, b) = (work@, install@);
        work.append(&mut install);
        assert(plan_model(work@) =~= plan_model(a) + plan_model(b));
        let ghost c = plan_model(work@);
        if !no_sign {
            work.push(Step::Run(command::sbctl("sign-all")));
        }
        assert(plan_model(work@) =~= c + (if no_sign { Seq::empty() } else { seq![StepModel::Run(sbctl_cmd("sign-all"@))] }));
        Scope::new(self.acquire(), work, self.umount())
    }

    /// Running a command line with the stack mounted: run it if it is not
    /// empty, then sign if asked to; the stack is taken down afterwards
    /// whatever the work gave.
    pub fn run(&self, command_line: &Vec<String>, sign_all: bool) -> (r: Scope)
        ensures
            r.wf(),
            r.acquiring().plan() == reset_plan(self.config().boot) + mount_plan(self.config().boot),
            r.working().plan() == run_work(command_line@, sign_all),
            r.releasing().plan() == unmount_plan(self.config().boot),
            r.acquiring().seen().len() == 0,
            r.working().seen().len() == 0,
            r.releasing().seen().len() == 0,
    {
        let mut steps: Vec<Step> = Vec::new();
        if command_line.len() > 0 {
            let mut args: Vec<String> = Vec::new();
            let mut i: usize = 1;
            while i < command_line.len()
                invariant
                    1 <= i <= command_line@.len(),
                    texts(args@) =~= texts(command_line@).subrange(1, i as int),
                decreases command_line@.len() - i,
            {
                let ghost prev = args@;
                args.push(command_line[i].clone());
                assert(texts(args@) =~= texts(prev).push(command_line@[i as int]@));
                i = i + 1;
            }
            assert(texts(command_line@).subrange(1, command_line@.len() as int) =~= texts(command_line@).drop_first());
            steps.push(Step::Run(Invocation { program: command_line[0].clone(), args, quiet: false }));
        }
        if sign_all {
            steps.push(Step::Run(command::sbctl("sign-all")));
        }
        assert(plan_model(steps@) =~= run_work(command_line@, sign_all));
        Scope::new(self.acquire(), steps, self.umount())
    }
}

/// Generate the boot loader's configuration, install it, then sign unless
/// told not to.
pub open spec fn install_work(c: Config, no_sign: bool) -> Seq<StepModel> {
    mkconfig_steps(c.boot.mountpoint@) + seq![
        StepModel::RequireDirectory(c.boot.efi.mountpoint@),
        StepModel::Run(cmd("grub-install"@, install_args(c.grub, c.boot.efi.mountpoint@), false)),
    ] + (if no_sign { Seq::empty() } else { seq![StepModel::Run(sbctl_cmd("sign-all"@))] })
}

/// Run the command line if it is not empty, then sign if asked to.
pub open spec fn run_work(command_line: Seq<String>, sign_all: bool) -> Seq<StepModel> {
    (if command_line.len() == 0 {
        Seq::empty()
    } else {
        seq![StepModel::Run(cmd(command_line[0]@, texts(command_line).drop_first(), false))]
    }) + (if sign_all { seq![StepModel::Run(sbctl_cmd("sign-all"@))] } else { Seq::empty() })
}

} // verus!
