use cryptboot::boot::{Config, Efi, EncryptedBoot, BOOT_MAPPER_NAME};
use cryptboot::command::{self, Error, Invocation, Step};
use cryptboot::cryptboot::{Config as FullConfig, Cryptboot};
use cryptboot::device::{Device, PathKind};
use cryptboot::grub::{self, Grub};
use cryptboot::session::{Observation, Scope, Session};

const OK: Observation = Observation::Exited(Some(0));
const FAIL: Observation = Observation::Exited(Some(32));
const BLOCK: Observation = Observation::Found(PathKind::BlockDevice);
const DIR: Observation = Observation::Found(PathKind::Directory);

fn config() -> Config {
    Config {
        device: "/dev/sda2".to_string(),
        mountpoint: "/boot".to_string(),
        efi: Efi { device: "/dev/sda1".to_string(), mountpoint: "/boot/efi".to_string() },
    }
}

fn manager() -> EncryptedBoot {
    EncryptedBoot::from_config(config())
}

/// Runs the steps, answering each from `answers`; returns how many steps
/// were performed and the result.
fn drive(steps: Vec<Step>, answers: &[Observation]) -> (usize, Result<(), Error>) {
    let mut s = Session::new(steps);
    let mut n = 0;
    while !s.is_finished() {
        assert!(s.pending().is_some());
        s.observe(answers[n]);
        n += 1;
    }
    assert!(s.pending().is_none());
    (n, s.into_outcome())
}

fn invocation(step: &Step) -> &Invocation {
    match step {
        Step::Run(i) | Step::TryRun(i) => i,
        _ => panic!("not a command"),
    }
}

fn line(i: &Invocation) -> Vec<String> {
    let mut v = vec![i.program.clone()];
    v.extend(i.args.iter().cloned());
    v
}

#[test]
fn device_paths() {
    assert_eq!(Device::Path("/dev/sda2".to_string()).full_path(), "/dev/sda2");
    assert_eq!(Device::Mapper("cryptboot-boot".to_string()).full_path(), "/dev/mapper/cryptboot-boot");
    assert_eq!(
        Device::PartUuid(0x67e5504410b1426f9247bb680e5fe0c8).full_path(),
        "/dev/disk/by-partuuid/67e55044-10b1-426f-9247-bb680e5fe0c8"
    );
}

#[test]
fn path_kinds() {
    assert!(PathKind::BlockDevice.is_block_device());
    assert!(!PathKind::Missing.is_block_device());
    assert!(!PathKind::Directory.is_block_device());
    assert!(PathKind::Directory.is_directory());
    assert!(!PathKind::Other.is_directory());
}

#[test]
fn primitives() {
    let open = command::cryptsetup_open(&Device::Path("/dev/sda2".to_string()), "vault");
    assert_eq!(open.len(), 2);
    assert!(matches!(&open[0], Step::RequireBlockDevice(p) if p == "/dev/sda2"));
    assert_eq!(line(invocation(&open[1])), vec!["cryptsetup", "open", "/dev/sda2", "vault"]);

    let close = command::cryptsetup_close("vault", true);
    assert_eq!(line(&close), vec!["cryptsetup", "close", "vault"]);
    assert!(close.quiet);

    let m = command::mount(&Device::Mapper("vault".to_string()), "/boot");
    assert_eq!(m.len(), 3);
    assert!(matches!(&m[0], Step::RequireBlockDevice(p) if p == "/dev/mapper/vault"));
    assert!(matches!(&m[1], Step::RequireDirectory(p) if p == "/boot"));
    assert_eq!(line(invocation(&m[2])), vec!["mount", "/dev/mapper/vault", "/boot"]);

    assert_eq!(line(&command::umount("/boot", &["-q", "-R"])), vec!["umount", "-q", "-R", "/boot"]);
    assert_eq!(line(&command::sbctl("sign-all")), vec!["sbctl", "sign-all"]);
}

#[test]
fn manager_from_config() {
    let m = manager();
    assert_eq!(m.name, BOOT_MAPPER_NAME);
    assert!(!m.umount_on_drop);
    assert!(m.umount_on_drop().umount_on_drop);
    assert!(EncryptedBoot::default().umount_on_drop);
}

#[test]
fn mount_plan_order() {
    let steps = manager().mount();
    assert_eq!(steps.len(), 8);
    assert_eq!(line(invocation(&steps[1])), vec!["cryptsetup", "open", "/dev/sda2", "cryptboot-boot"]);
    assert_eq!(line(invocation(&steps[4])), vec!["mount", "/dev/mapper/cryptboot-boot", "/boot"]);
    assert_eq!(line(invocation(&steps[7])), vec!["mount", "/dev/sda1", "/boot/efi"]);
}

#[test]
fn unmount_plan_order() {
    let steps = manager().umount();
    assert!(matches!(&steps[0], Step::TryRun(_)));
    assert_eq!(line(invocation(&steps[0])), vec!["umount", "/boot/efi"]);
    assert!(matches!(&steps[1], Step::Run(_)));
    assert_eq!(line(invocation(&steps[1])), vec!["umount", "-R", "/boot"]);
    assert_eq!(line(invocation(&steps[2])), vec!["cryptsetup", "close", "cryptboot-boot"]);
    assert!(!invocation(&steps[2]).quiet);
}

#[test]
fn reset_plan_is_forced_and_quiet() {
    let steps = manager().reset();
    assert!(steps.iter().all(|s| matches!(s, Step::TryRun(_))));
    assert_eq!(line(invocation(&steps[0])), vec!["umount", "-fR", "/boot/efi"]);
    assert_eq!(line(invocation(&steps[1])), vec!["umount", "-fqR", "/boot"]);
    assert_eq!(line(invocation(&steps[2])), vec!["cryptsetup", "close", "cryptboot-boot"]);
    assert!(invocation(&steps[2]).quiet);
}

#[test]
fn mount_then_unmount_succeeds() {
    let m = manager();
    let (n, r) = drive(m.mount(), &[BLOCK, OK, BLOCK, DIR, OK, BLOCK, DIR, OK]);
    assert_eq!(n, 8);
    assert!(r.is_ok());
    let (n, r) = drive(m.umount(), &[OK, OK, OK]);
    assert_eq!(n, 3);
    assert!(r.is_ok());
}

#[test]
fn unmount_goes_on_after_efi_failure() {
    let (n, r) = drive(manager().umount(), &[FAIL, OK, OK]);
    assert_eq!(n, 3);
    assert!(r.is_ok());
}

#[test]
fn unmount_stops_before_release_when_boot_stays() {
    let (n, r) = drive(manager().umount(), &[OK, FAIL, OK]);
    assert_eq!(n, 2);
    assert!(matches!(r, Err(Error::CommandFailed { operation, args, code: Some(32) })
        if operation == "umount" && args == vec!["-R", "/boot"]));
}

#[test]
fn reset_never_fails() {
    let (n, r) = drive(manager().reset(), &[FAIL, FAIL, Observation::Exited(None)]);
    assert_eq!(n, 3);
    assert!(r.is_ok());
}

#[test]
fn mount_stops_at_first_failure_without_cleanup() {
    // unlocked, but the unlocked device does not show up
    let (n, r) = drive(manager().mount(), &[BLOCK, OK, Observation::Found(PathKind::Missing)]);
    assert_eq!(n, 3);
    assert!(matches!(r, Err(Error::InvalidDevice(p)) if p == "/dev/mapper/cryptboot-boot"));
    // the reset that follows performs every step and succeeds
    let (n, r) = drive(manager().reset(), &[FAIL, FAIL, OK]);
    assert_eq!(n, 3);
    assert!(r.is_ok());
}

#[test]
fn invalid_device_and_mountpoint() {
    let (n, r) = drive(manager().mount(), &[Observation::Found(PathKind::Other)]);
    assert_eq!(n, 1);
    assert!(matches!(r, Err(Error::InvalidDevice(p)) if p == "/dev/sda2"));
    let (n, r) = drive(manager().mount(), &[BLOCK, OK, BLOCK, Observation::Found(PathKind::Missing)]);
    assert_eq!(n, 4);
    assert!(matches!(r, Err(Error::InvalidMountpoint(p)) if p == "/boot"));
    let (_, r) = drive(manager().mount(), &[BLOCK, Observation::Exited(Some(2))]);
    assert!(matches!(r, Err(Error::CommandFailed { operation, args, code: Some(2) })
        if operation == "cryptsetup" && args == vec!["open", "/dev/sda2", "cryptboot-boot"]));
    // a failed EFI mount names its device and mountpoint
    let (_, r) = drive(manager().mount(), &[BLOCK, OK, BLOCK, DIR, OK, BLOCK, DIR, FAIL]);
    assert!(matches!(r, Err(Error::CommandFailed { operation, args, .. })
        if operation == "mount" && args == vec!["/dev/sda1", "/boot/efi"]));
}

#[test]
fn release_happens_once() {
    let mut m = manager().umount_on_drop();
    assert!(m.release_on_exit());
    assert!(!m.release_on_exit());
    let mut n = manager();
    assert!(!n.release_on_exit());
}

#[test]
fn empty_session_is_done() {
    let (n, r) = drive(Vec::new(), &[]);
    assert_eq!(n, 0);
    assert!(r.is_ok());
}

fn grub_with(add: &[&str]) -> Grub {
    let mut c = grub::Config::default();
    c.add_modules = add.iter().map(|s| s.to_string()).collect();
    Grub::from_config(c)
}

#[test]
fn modules_by_target() {
    let g = grub_with(&[]);
    let efi = g.modules_for_target("x86_64-efi");
    assert_eq!(efi.len(), 89);
    assert_eq!(efi[0], "all_video");
    assert_eq!(&efi[86..], &["cpuid", "play", "tpm"]);
    assert_eq!(g.modules_for_target("i386-efi").len(), 89);
    let pc = g.modules_for_target("i386-pc");
    assert_eq!(pc.len(), 86);
    assert_eq!(pc[85], "raid6rec");
}

#[test]
fn added_modules_are_not_repeated() {
    let g = grub_with(&["luks2", "tpm", "luks2", "btrfs", "argon2"]);
    let m = g.modules_for_target("x86_64-efi");
    assert_eq!(m.len(), 91);
    assert_eq!(&m[89..], &["luks2", "argon2"]);
}

#[test]
fn grub_install_steps() {
    let g = grub_with(&["zstd"]);
    let steps = g.install(&config());
    assert!(matches!(&steps[0], Step::RequireDirectory(p) if p == "/boot/efi"));
    let i = invocation(&steps[1]);
    assert_eq!(i.program, "grub-install");
    assert_eq!(i.args[0], "--target=x86_64-efi");
    assert_eq!(i.args[1], "--efi-directory=/boot/efi");
    assert_eq!(i.args[2], "--bootloader-id=GRUB");
    assert!(i.args[3].starts_with("--modules=all_video boot btrfs "));
    assert!(i.args[3].ends_with(" cpuid play tpm zstd"));
    assert_eq!(i.args[4], "--disable-shim-lock");
}

fn cryptboot() -> Cryptboot {
    let mut c = FullConfig::default();
    c.boot = config();
    Cryptboot::from_config(c)
}

#[test]
fn cryptboot_mount_resets_first() {
    let (m, steps) = cryptboot().mount();
    assert_eq!(m.name, BOOT_MAPPER_NAME);
    assert_eq!(steps.len(), 11);
    assert_eq!(line(invocation(&steps[0])), vec!["umount", "-fR", "/boot/efi"]);
    assert_eq!(line(invocation(&steps[4])), vec!["cryptsetup", "open", "/dev/sda2", "cryptboot-boot"]);
    // a stale stack: reset fails everywhere, the mount goes through
    let (n, r) = drive(steps, &[FAIL, FAIL, FAIL, BLOCK, OK, BLOCK, DIR, OK, BLOCK, DIR, OK]);
    assert_eq!(n, 11);
    assert!(r.is_ok());
}

/// Runs a scope, answering each step from `answer`; returns the command
/// lines performed and the result.
fn drive_scope(mut scope: Scope, answer: impl Fn(&Step) -> Observation) -> (Vec<Vec<String>>, Result<(), Error>) {
    let mut performed = Vec::new();
    while let Some(step) = scope.pending() {
        if let Step::Run(i) | Step::TryRun(i) = step {
            performed.push(line(i));
        }
        let o = answer(step);
        scope.observe(o);
    }
    (performed, scope.into_outcome())
}

fn healthy(step: &Step) -> Observation {
    match step {
        Step::RequireBlockDevice(_) => BLOCK,
        Step::RequireDirectory(_) | Step::EnsureDirectory(_) => DIR,
        _ => OK,
    }
}

fn unmount_lines() -> Vec<Vec<String>> {
    manager().umount().iter().map(|s| line(invocation(s))).collect()
}

#[test]
fn run_unmounts_after_success() {
    let cmd = vec!["pacman".to_string(), "-Syu".to_string()];
    let (performed, r) = drive_scope(cryptboot().run(&cmd, true), healthy);
    assert!(r.is_ok());
    assert_eq!(performed.len(), 3 + 3 + 2 + 3);
    assert_eq!(performed[6], vec!["pacman", "-Syu"]);
    assert_eq!(performed[7], vec!["sbctl", "sign-all"]);
    assert_eq!(performed[8..].to_vec(), unmount_lines());
}

#[test]
fn run_unmounts_once_after_failed_work() {
    let cmd = vec!["false".to_string()];
    let (performed, r) = drive_scope(cryptboot().run(&cmd, true), |s| match s {
        Step::Run(i) if i.program == "false" => FAIL,
        _ => healthy(s),
    });
    assert!(matches!(r, Err(Error::CommandFailed { operation, .. }) if operation == "false"));
    // no signing, and the unmount sequence exactly once, at the end
    assert_eq!(performed.len(), 3 + 3 + 1 + 3);
    assert_eq!(performed[7..].to_vec(), unmount_lines());
}

#[test]
fn failed_mount_does_no_work_and_no_unmount() {
    let cmd = vec!["true".to_string()];
    let (performed, r) = drive_scope(cryptboot().run(&cmd, false), |s| match s {
        Step::Run(i) if i.program == "mount" => FAIL,
        _ => healthy(s),
    });
    assert!(matches!(r, Err(Error::CommandFailed { operation, args, .. })
        if operation == "mount" && args == vec!["/dev/mapper/cryptboot-boot", "/boot"]));
    assert_eq!(performed.len(), 3 + 2);
}

#[test]
fn grub_install_scope() {
    let (performed, r) = drive_scope(cryptboot().grub_install(false), healthy);
    assert!(r.is_ok());
    assert_eq!(performed[6], vec!["grub-mkconfig", "-o", "/boot/grub/grub.cfg"]);
    assert_eq!(performed[7][0], "grub-install");
    assert_eq!(performed[8], vec!["sbctl", "sign-all"]);
    assert_eq!(performed[9..].to_vec(), unmount_lines());
    let (performed, r) = drive_scope(cryptboot().grub_install(true), |s| match s {
        Step::Run(i) if i.program == "grub-install" => FAIL,
        _ => healthy(s),
    });
    assert!(r.is_err());
    assert_eq!(performed.len(), 3 + 3 + 2 + 3);
    assert_eq!(performed[8..].to_vec(), unmount_lines());
}

#[test]
fn sbctl_failure_names_the_subcommand() {
    let (_, r) = drive(vec![Step::Run(command::sbctl("sign-all"))], &[FAIL]);
    assert!(matches!(r, Err(Error::CommandFailed { operation, args, .. })
        if operation == "sbctl" && args == vec!["sign-all"]));
}

#[test]
fn mkconfig_steps() {
    let steps = grub_with(&[]).mkconfig(&config());
    assert!(matches!(&steps[0], Step::EnsureDirectory(p) if p == "/boot/grub"));
    assert_eq!(line(invocation(&steps[1])), vec!["grub-mkconfig", "-o", "/boot/grub/grub.cfg"]);
    let (_, r) = drive(steps, &[Observation::Found(PathKind::Missing)]);
    assert!(matches!(r, Err(Error::DirectoryUnavailable(p)) if p == "/boot/grub"));
}

#[test]
fn default_manager_uses_the_fixed_name() {
    let m = EncryptedBoot::default();
    let steps = m.mount();
    assert_eq!(invocation(&steps[1]).args[2], "cryptboot-boot");
    assert!(matches!(&steps[2], Step::RequireBlockDevice(p) if p == "/dev/mapper/cryptboot-boot"));
    assert_eq!(invocation(&m.umount()[2]).args[1], "cryptboot-boot");
    assert_eq!(invocation(&m.reset()[2]).args[1], "cryptboot-boot");
}

#[test]
fn cryptboot_umount_plan() {
    let lines: Vec<Vec<String>> = cryptboot().umount().iter().map(|s| line(invocation(s))).collect();
    assert_eq!(lines, unmount_lines());
}
