use crate::command::{
    self, Invocation, Step, StepModel, close_cmd, mount_steps, open_steps, plan_model,
    umount_cmd,
};
use crate::device::Device;
use vstd::prelude::*;

verus! {

/// The name under which the boot partition is unlocked.
pub const BOOT_MAPPER_NAME: &'static str = "cryptboot-boot";

/// The EFI system partition and where it is mounted.
pub struct Efi {
    pub device: String,
    pub mountpoint: String,
}

/// The encrypted boot partition and where it is mounted.
pub struct Config {
    /// The encrypted device that holds the boot files.
    pub device: String,
    pub mountpoint: String,
    pub efi: Efi,
}

impl Default for Efi {
    fn default() -> (r: Efi)
        ensures
            r.device@ == Seq::<char>::empty(),
            r.mountpoint@ == Seq::<char>::empty(),
    {
        Efi { device: String::new(), mountpoint: String::new() }
    }
}

impl Default for Config {
    fn default() -> (r: Config)
        ensures
            r.device@ == Seq::<char>::empty(),
            r.mountpoint@ == Seq::<char>::empty(),
            r.efi.device@ == Seq::<char>::empty(),
            r.efi.mountpoint@ == Seq::<char>::empty(),
    {
        Config { device: String::new(), mountpoint: String::new(), efi: Efi::default() }
    }
}

impl Efi {
    fn mount(&self) -> (r: Vec<Step>)
        ensures
            plan_model(r@) == mount_steps(self.device@, self.mountpoint@),
    {
        command::mount(&Device::Path(self.device.clone()), self.mountpoint.as_str())
    }

    fn umount(&self, flags: &[&str]) -> (r: Invocation)
        ensures
            r@ == umount_cmd(self.mountpoint@, flags@.map_values(|f: &str| f@)),
    {
        command::umount(self.mountpoint.as_str(), flags)
    }
}

/// Manages the two-layer mount: the unlocked boot partition, and the EFI
/// partition beneath it.
pub struct EncryptedBoot {
    pub config: Config,
    /// A name for the managed stack; the device is always unlocked, found
    /// and released under [`BOOT_MAPPER_NAME`].
    pub name: String,
    /// Whether the mount is to be released when the owner is done with it.
    pub umount_on_drop: bool,
}

/// The path of the unlocked device.
pub open spec fn mapper_path() -> Seq<char> {
    "/dev/mapper/"@ + BOOT_MAPPER_NAME@
}

/// Unlock, mount the unlocked device, mount the EFI partition; no step undoes another.
pub open spec fn mount_plan(c: Config) -> Seq<StepModel> {
    open_steps(c.device@, BOOT_MAPPER_NAME@) + mount_steps(mapper_path(), c.mountpoint@)
        + mount_steps(c.efi.device@, c.efi.mountpoint@)
}

/// Detach the EFI partition (a failure is ignored), detach the boot partition
/// with everything beneath it, release the unlocked device.
pub open spec fn unmount_plan(c: Config) -> Seq<StepModel> {
    seq![
        StepModel::TryRun(umount_cmd(c.efi.mountpoint@, seq![])),
        StepModel::Run(umount_cmd(c.mountpoint@, seq!["-R"@])),
        StepModel::Run(close_cmd(BOOT_MAPPER_NAME@, false)),
    ]
}

/// The same three steps as unmounting, every failure ignored: the EFI
/// partition detached by force with what is beneath it, the boot partition
/// likewise and quietly, the device released silently.
pub open spec fn reset_plan(c: Config) -> Seq<StepModel> {
    seq![
        StepModel::TryRun(umount_cmd(c.efi.mountpoint@, seq!["-fR"@])),
        StepModel::TryRun(umount_cmd(c.mountpoint@, seq!["-fqR"@])),
        StepModel::TryRun(close_cmd(BOOT_MAPPER_NAME@, true)),
    ]
}

/// What the owner's exit does: whether it unmounts, and the manager after.
pub open spec fn release_step(b: EncryptedBoot) -> (bool, EncryptedBoot) {
    (b.umount_on_drop, EncryptedBoot { umount_on_drop: false, ..b })
}

impl Default for EncryptedBoot {
    fn default() -> (r: EncryptedBoot)
        ensures
            r.config.device@ == Seq::<char>::empty(),
            r.config.mountpoint@ == Seq::<char>::empty(),
            r.config.efi.device@ == Seq::<char>::empty(),
            r.config.efi.mountpoint@ == Seq::<char>::empty(),
            r.name@ == Seq::<char>::empty(),
            r.umount_on_drop,
    {
        EncryptedBoot { config: Config::default(), name: String::new(), umount_on_drop: true }
    }
}

impl EncryptedBoot {
    pub fn from_config(config: Config) -> (r: EncryptedBoot)
        ensures
            r.config == config,
            r.name@ == BOOT_MAPPER_NAME@,
            !r.umount_on_drop,
    {
        EncryptedBoot { config, name: BOOT_MAPPER_NAME.to_string(), umount_on_drop: false }
    }

    /// The same manager, releasing the mount when its owner is done with it.
    pub fn umount_on_drop(self) -> (r: EncryptedBoot)
        ensures
            r.config == self.config,
            r.name == self.name,
            r.umount_on_drop,
    {
        let mut s = self;
        s.umount_on_drop = true;
        s
    }

    /// Whether the owner, now done, must unmount; afterwards it never must
    /// again, so the release happens at most once.
    pub fn release_on_exit(&mut self) -> (r: bool)
        ensures
            (r, *final(self)) == release_step(*old(self)),
    {
        let r = self.umount_on_drop;
        self.umount_on_drop = false;
        r
    }

    /// The steps that mount the stack.
    pub fn mount(&self) -> (r: Vec<Step>)
        ensures
            plan_model(r@) == mount_plan(self.config),
    {
        let mut r = command::cryptsetup_open(&Device::Path(self.config.device.clone()), BOOT_MAPPER_NAME);
        let mut boot = command::mount(&Device::Mapper(BOOT_MAPPER_NAME.to_string()), self.config.mountpoint.as_str());
        let mut efi = self.config.efi.mount();
        let ghost (a, b, c) = (r@, boot@, efi@);
        r.append(&mut boot);
        r.append(&mut efi);
        assert(r@ =~= a + b + c);
        assert(plan_model(r@) =~= plan_model(a) + plan_model(b) + plan_model(c));
        r
    }

    /// The steps that take the stack down.
    pub fn umount(&self) -> (r: Vec<Step>)
        ensures
            plan_model(r@) == unmount_plan(self.config),
    {
        let none: &[&str] = &[];
        let recursive: &[&str] = &["-R"];
        assert(none@.map_values(|f: &str| f@) =~= Seq::<Seq<char>>::empty());
        assert(recursive@.map_values(|f: &str| f@) =~= seq!["-R"@]);
        let efi = self.config.efi.umount(none);
        let boot = command::umount(self.config.mountpoint.as_str(), recursive);
        let close = command::cryptsetup_close(BOOT_MAPPER_NAME, false);
        let r: Vec<Step> = vec![Step::TryRun(efi), Step::Run(boot), Step::Run(close)];
        assert(plan_model(r@) =~= unmount_plan(self.config));
        r
    }

    /// The steps that take down whatever an earlier run left in place.
    pub fn reset(&self) -> (r: Vec<Step>)
        ensures
            plan_model(r@) == reset_plan(self.config),
    {
        let efi_flags: &[&str] = &["-fR"];
        let boot_flags: &[&str] = &["-fqR"];
        assert(efi_flags@.map_values(|f: &str| f@) =~= seq!["-fR"@]);
        assert(boot_flags@.map_values(|f: &str| f@) =~= seq!["-fqR"@]);
        let efi = self.config.efi.umount(efi_flags);
        let boot = command::umount(self.config.mountpoint.as_str(), boot_flags);
        let close = command::cryptsetup_close(BOOT_MAPPER_NAME, true);
        let r: Vec<Step> = vec![Step::TryRun(efi), Step::TryRun(boot), Step::TryRun(close)];
        assert(plan_model(r@) =~= reset_plan(self.config));
        r
    }
}

} // verus!
