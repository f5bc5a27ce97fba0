use crate::boot::{BOOT_MAPPER_NAME, EncryptedBoot, mapper_path, release_step, mount_plan, reset_plan, unmount_plan};
use crate::command::{Cmd, ErrorModel, StepModel};
use crate::device::PathKind;
use crate::session::{Observation, aborts, exit_code, status, step_error, step_passes};
use vstd::prelude::*;

verus! {

/// Work stops at the first step whose failure is not ignored, with that
/// step's error; the steps after it are never performed.
pub proof fn lemma_stops_at_first_failure(steps: Seq<StepModel>, obs: Seq<Observation>, k: int)
    requires
        0 <= k < steps.len(),
        obs.len() == k + 1,
        forall|i: int| 0 <= i < k ==> !aborts(steps[i], #[trigger] obs[i]),
        aborts(steps[k], obs[k]),
    ensures
        status(steps, obs) == Some(Err::<(), ErrorModel>(step_error(steps[k], obs[k]))),
        forall|j: int| 0 <= j < k + 1 ==> status(steps, #[trigger] obs.take(j)) is None,
    decreases k,
{
    if k > 0 {
        lemma_stops_at_first_failure(steps.drop_first(), obs.drop_first(), k - 1);
        assert forall|j: int| 0 <= j < k + 1 implies status(steps, #[trigger] obs.take(j)) is None by {
            if j > 0 {
                assert(obs.take(j).drop_first() =~= obs.drop_first().take(j - 1));
            }
        }
    } else {
        assert forall|j: int| 0 <= j < k + 1 implies status(steps, #[trigger] obs.take(j)) is None by {
            assert(obs.take(j).len() == 0);
        }
    }
}

/// Mounting stops at its first failing step and undoes nothing: the result
/// is that step's error, and no step after it is performed.
pub proof fn lemma_mount_aborts_without_cleanup(b: EncryptedBoot, obs: Seq<Observation>, k: int)
    requires
        0 <= k < mount_plan(b.config).len(),
        obs.len() == k + 1,
        forall|i: int| 0 <= i < k ==> step_passes(mount_plan(b.config)[i], #[trigger] obs[i]),
        !step_passes(mount_plan(b.config)[k], obs[k]),
    ensures
        status(mount_plan(b.config), obs) == Some(Err::<(), ErrorModel>(step_error(mount_plan(b.config)[k], obs[k]))),
{
    let p = mount_plan(b.config);
    assert(forall|i: int| 0 <= i < p.len() ==> !(#[trigger] p[i] is TryRun));
    lemma_stops_at_first_failure(p, obs, k);
}

/// A failure to detach the EFI partition does not stop unmounting: the
/// boot partition is still detached and the device released, and when those
/// succeed so does the whole.
pub proof fn lemma_unmount_tolerates_efi_failure(b: EncryptedBoot, efi: Observation, boot: Observation, close: Observation)
    requires
        step_passes(unmount_plan(b.config)[1], boot),
        step_passes(unmount_plan(b.config)[2], close),
    ensures
        status(unmount_plan(b.config), seq![efi]) is None,
        status(unmount_plan(b.config), seq![efi, boot]) is None,
        status(unmount_plan(b.config), seq![efi, boot, close]) == Some(Ok::<(), ErrorModel>(())),
{
    reveal_with_fuel(status, 4);
    let p = unmount_plan(b.config);
    assert(seq![efi, boot].drop_first() =~= seq![boot]);
    assert(seq![efi, boot, close].drop_first() =~= seq![boot, close]);
    assert(seq![boot, close].drop_first() =~= seq![close]);
    assert(p.drop_first().drop_first() =~= seq![p[2]]);
}

/// When detaching the boot partition fails, unmounting fails with that
/// command's error and the device is not released.
pub proof fn lemma_unmount_stops_before_release(b: EncryptedBoot, efi: Observation, boot: Observation)
    requires
        !step_passes(unmount_plan(b.config)[1], boot),
    ensures
        status(unmount_plan(b.config), seq![efi, boot]) == Some(
            Err::<(), ErrorModel>(ErrorModel::CommandFailed {
                operation: "umount"@,
                args: seq!["-R"@, b.config.mountpoint@],
                code: exit_code(boot),
            }),
        ),
{
    reveal_with_fuel(status, 3);
    assert(seq![efi, boot].drop_first() =~= seq![boot]);
    assert(unmount_plan(b.config)[1]->Run_0.args =~= seq!["-R"@, b.config.mountpoint@]);
}

/// Resetting performs all three steps and succeeds whatever each of them gives.
pub proof fn lemma_reset_never_fails(b: EncryptedBoot, efi: Observation, boot: Observation, close: Observation)
    ensures
        status(reset_plan(b.config), seq![efi]) is None,
        status(reset_plan(b.config), seq![efi, boot]) is None,
        status(reset_plan(b.config), seq![efi, boot, close]) == Some(Ok::<(), ErrorModel>(())),
{
    reveal_with_fuel(status, 4);
    let p = reset_plan(b.config);
    assert(seq![efi, boot].drop_first() =~= seq![boot]);
    assert(seq![efi, boot, close].drop_first() =~= seq![boot, close]);
    assert(seq![boot, close].drop_first() =~= seq![close]);
    assert(p.drop_first().drop_first() =~= seq![p[2]]);
}

/// A device check passes only where a block device was found; anything
/// else, nothing there or nothing readable included, ends the work with an
/// invalid-device error that names the path.
pub proof fn lemma_device_check(path: Seq<char>, o: Observation)
    ensures
        step_passes(StepModel::RequireBlockDevice(path), o) <==> o == Observation::Found(PathKind::BlockDevice),
        o != Observation::Found(PathKind::BlockDevice) ==> aborts(StepModel::RequireBlockDevice(path), o)
            && step_error(StepModel::RequireBlockDevice(path), o) == ErrorModel::InvalidDevice(path),
{
}

/// A manager set to release on exit unmounts once when its owner is done,
/// whatever the owner's work gave, and never a second time; the steps it
/// unmounts with are unchanged.
pub proof fn lemma_release_exactly_once(b: EncryptedBoot)
    requires
        b.umount_on_drop,
    ensures
        release_step(b).0,
        !release_step(release_step(b).1).0,
        unmount_plan(release_step(b).1.config) == unmount_plan(b.config),
{
}

/// The operating system's part of the stack: what is unlocked and mounted.
pub struct Stack {
    pub unlocked: bool,
    pub boot_mounted: bool,
    pub efi_mounted: bool,
}

pub open spec fn released() -> Stack {
    Stack { unlocked: false, boot_mounted: false, efi_mounted: false }
}

pub open spec fn fully_mounted() -> Stack {
    Stack { unlocked: true, boot_mounted: true, efi_mounted: true }
}

/// The two devices are distinct from the unlocked one, and the two mountpoints differ.
pub open spec fn distinct_paths(b: EncryptedBoot) -> bool {
    &&& b.config.device@ != mapper_path()
    &&& b.config.efi.device@ != mapper_path()
    &&& b.config.mountpoint@ != b.config.efi.mountpoint@
}

pub open spec fn is_recursive(c: Cmd) -> bool {
    c.args.contains("-R"@) || c.args.contains("-fR"@) || c.args.contains("-fqR"@)
}

/// Whether a command of the stack succeeds in state `s` of a system where
/// nothing else acts: unlocking needs a locked device, mounting a free
/// mountpoint over what it rests on, detaching something attached (and
/// nothing beneath it unless recursive), releasing an unmounted device.
pub open spec fn succeeds(b: EncryptedBoot, s: Stack, c: Cmd) -> bool {
    if c.program == "cryptsetup"@ && c.args.len() == 3 && c.args[0] == "open"@ {
        c.args[2] == BOOT_MAPPER_NAME@ && !s.unlocked
    } else if c.program == "cryptsetup"@ && c.args.len() == 2 && c.args[0] == "close"@ {
        c.args[1] == BOOT_MAPPER_NAME@ && s.unlocked && !s.boot_mounted
    } else if c.program == "mount"@ && c.args.len() == 2 {
        if c.args[1] == b.config.mountpoint@ {
            c.args[0] == mapper_path() && s.unlocked && !s.boot_mounted
        } else if c.args[1] == b.config.efi.mountpoint@ {
            s.boot_mounted && !s.efi_mounted
        } else {
            false
        }
    } else if c.program == "umount"@ && c.args.len() >= 1 {
        if c.args.last() == b.config.efi.mountpoint@ {
            s.efi_mounted
        } else if c.args.last() == b.config.mountpoint@ {
            s.boot_mounted && (is_recursive(c) || !s.efi_mounted)
        } else {
            false
        }
    } else {
        false
    }
}

/// The state after command `c` succeeded in state `s`.
pub open spec fn effect(b: EncryptedBoot, s: Stack, c: Cmd) -> Stack {
    if c.program == "cryptsetup"@ && c.args[0] == "open"@ {
        Stack { unlocked: true, ..s }
    } else if c.program == "cryptsetup"@ {
        Stack { unlocked: false, ..s }
    } else if c.program == "mount"@ && c.args[1] == b.config.mountpoint@ {
        Stack { boot_mounted: true, ..s }
    } else if c.program == "mount"@ {
        Stack { efi_mounted: true, ..s }
    } else if c.args.last() == b.config.efi.mountpoint@ {
        Stack { efi_mounted: false, ..s }
    } else {
        Stack { boot_mounted: false, efi_mounted: false, ..s }
    }
}

/// What performing `step` in state `s` reports: the devices and mountpoints
/// of the configuration exist, and the unlocked device exists while unlocked.
pub open spec fn observed(b: EncryptedBoot, s: Stack, step: StepModel) -> Observation {
    match step {
        StepModel::RequireBlockDevice(p) => if p != mapper_path() || s.unlocked {
            Observation::Found(PathKind::BlockDevice)
        } else {
            Observation::Found(PathKind::Missing)
        },
        StepModel::RequireDirectory(_) => Observation::Found(PathKind::Directory),
        StepModel::EnsureDirectory(_) => Observation::Found(PathKind::Directory),
        StepModel::Run(c) => Observation::Exited(Some(if succeeds(b, s, c) { 0i32 } else { 1i32 })),
        StepModel::TryRun(c) => Observation::Exited(Some(if succeeds(b, s, c) { 0i32 } else { 1i32 })),
    }
}

pub open spec fn after(b: EncryptedBoot, s: Stack, step: StepModel) -> Stack {
    match step {
        StepModel::Run(c) => if succeeds(b, s, c) { effect(b, s, c) } else { s },
        StepModel::TryRun(c) => if succeeds(b, s, c) { effect(b, s, c) } else { s },
        _ => s,
    }
}

/// Performing every step of `steps` from state `s`: the final state and the
/// observations, one per step.
pub open spec fn perform(b: EncryptedBoot, s: Stack, steps: Seq<StepModel>) -> (Stack, Seq<Observation>)
    decreases steps.len(),
{
    if steps.len() == 0 {
        (s, Seq::empty())
    } else {
        let rest = perform(b, after(b, s, steps[0]), steps.drop_first());
        (rest.0, seq![observed(b, s, steps[0])] + rest.1)
    }
}

/// Mounting from a released stack and then unmounting both succeed, and
/// leave the stack as released as it was.
pub proof fn lemma_mount_unmount_round_trip(b: EncryptedBoot)
    requires
        distinct_paths(b),
    ensures
        perform(b, released(), mount_plan(b.config)).0 == fully_mounted(),
        status(mount_plan(b.config), perform(b, released(), mount_plan(b.config)).1) == Some(Ok::<(), ErrorModel>(())),
        perform(b, fully_mounted(), unmount_plan(b.config)).0 == released(),
        status(unmount_plan(b.config), perform(b, fully_mounted(), unmount_plan(b.config)).1) == Some(Ok::<(), ErrorModel>(())),
{
    lemma_command_words_differ();
    let p = mount_plan(b.config);
    let s0 = released();
    let unlocked = Stack { unlocked: true, ..s0 };
    let booted = Stack { boot_mounted: true, ..unlocked };
    assert(p.take(0) =~= Seq::<StepModel>::empty());
    lemma_perform_take(b, s0, p, 0);
    lemma_perform_take(b, s0, p, 1);
    assert(p[1]->Run_0.args =~= seq!["open"@, b.config.device@, BOOT_MAPPER_NAME@]);
    assert(perform(b, s0, p.take(2)).0 == unlocked);
    lemma_perform_take(b, s0, p, 2);
    lemma_perform_take(b, s0, p, 3);
    lemma_perform_take(b, s0, p, 4);
    assert(p[4]->Run_0.args =~= seq![mapper_path(), b.config.mountpoint@]);
    assert(perform(b, s0, p.take(5)).0 == booted);
    lemma_perform_take(b, s0, p, 5);
    lemma_perform_take(b, s0, p, 6);
    lemma_perform_take(b, s0, p, 7);
    assert(p[7]->Run_0.args =~= seq![b.config.efi.device@, b.config.efi.mountpoint@]);
    assert(p.take(8) =~= p);
    let obs = perform(b, s0, p).1;
    assert forall|i: int| 0 <= i < p.len() implies step_passes(p[i], #[trigger] obs[i]) by {
        assert(obs[i] == perform(b, s0, p.take(i + 1)).1[i]);
    }
    lemma_status_all_pass(p, obs);

    let u = unmount_plan(b.config);
    let s1 = fully_mounted();
    assert(u.take(0) =~= Seq::<StepModel>::empty());
    assert(u[0]->TryRun_0.args =~= seq![b.config.efi.mountpoint@]);
    assert(u[1]->Run_0.args =~= seq!["-R"@, b.config.mountpoint@]);
    assert(u[2]->Run_0.args =~= seq!["close"@, BOOT_MAPPER_NAME@]);
    assert(u[1]->Run_0.args[0] == "-R"@);
    lemma_perform_take(b, s1, u, 0);
    lemma_perform_take(b, s1, u, 1);
    assert(perform(b, s1, u.take(1)).0 == Stack { efi_mounted: false, ..s1 });
    lemma_perform_take(b, s1, u, 2);
    assert(perform(b, s1, u.take(2)).0 == unlocked);
    assert(u.take(3) =~= u);
    let obs2 = perform(b, s1, u).1;
    assert forall|i: int| 0 <= i < u.len() implies step_passes(u[i], #[trigger] obs2[i]) by {
        assert(obs2[i] == perform(b, s1, u.take(i + 1)).1[i]);
    }
    lemma_status_all_pass(u, obs2);
}

/// Resetting brings the stack back to released from any state, such as
/// the one that a mount left when it stopped partway.
pub proof fn lemma_reset_recovers(b: EncryptedBoot, s: Stack)
    requires
        distinct_paths(b),
    ensures
        perform(b, s, reset_plan(b.config)).0 == released(),
{
    lemma_command_words_differ();
    let p = reset_plan(b.config);
    assert(p[0]->TryRun_0.args =~= seq!["-fR"@, b.config.efi.mountpoint@]);
    assert(p[1]->TryRun_0.args =~= seq!["-fqR"@, b.config.mountpoint@]);
    assert(p[2]->TryRun_0.args =~= seq!["close"@, BOOT_MAPPER_NAME@]);
    assert(p[1]->TryRun_0.args[0] == "-fqR"@);
    assert(p.take(0) =~= Seq::<StepModel>::empty());
    lemma_perform_take(b, s, p, 0);
    lemma_perform_take(b, s, p, 1);
    lemma_perform_take(b, s, p, 2);
    let s2 = perform(b, s, p.take(2)).0;
    assert(!s2.boot_mounted && !s2.efi_mounted);
    assert(p.take(3) =~= p);
}

/// The words that tell the stack's commands apart are distinct.
proof fn lemma_command_words_differ()
    ensures
        "mount"@ != "cryptsetup"@,
        "umount"@ != "cryptsetup"@,
        "umount"@ != "mount"@,
        "open"@ != "close"@,
        "-R"@ != "-fqR"@,
        "-fR"@ != "-fqR"@,
{
    reveal_strlit("cryptsetup");
    reveal_strlit("open");
    reveal_strlit("close");
    reveal_strlit("mount");
    reveal_strlit("umount");
    reveal_strlit("-R");
    reveal_strlit("-fqR");
    reveal_strlit("-fR");
    assert("cryptsetup"@.len() == 10);
    assert("mount"@.len() == 5);
    assert("umount"@.len() == 6);
    assert("open"@[0] == 'o' && "close"@[0] == 'c');
    assert("-R"@.len() == 2 && "-fR"@.len() == 3 && "-fqR"@.len() == 4);
}

/// Performing one more step.
pub proof fn lemma_perform_push(b: EncryptedBoot, s: Stack, a: Seq<StepModel>, x: StepModel)
    ensures
        perform(b, s, a.push(x)).0 == after(b, perform(b, s, a).0, x),
        perform(b, s, a.push(x)).1 == perform(b, s, a).1.push(observed(b, perform(b, s, a).0, x)),
    decreases a.len(),
{
    if a.len() == 0 {
        assert(a.push(x).drop_first() =~= Seq::<StepModel>::empty());
        reveal_with_fuel(perform, 2);
        assert(perform(b, s, a.push(x)).1 =~= perform(b, s, a).1.push(observed(b, s, x)));
    } else {
        assert(a.push(x).drop_first() =~= a.drop_first().push(x));
        lemma_perform_push(b, after(b, s, a[0]), a.drop_first(), x);
        let o = observed(b, s, a[0]);
        let r = perform(b, after(b, s, a[0]), a.drop_first()).1;
        let y = observed(b, perform(b, after(b, s, a[0]), a.drop_first()).0, x);
        assert(seq![o] + r.push(y) =~= (seq![o] + r).push(y));
    }
}

/// Performing the steps up to the one at `i`, then that one.
pub proof fn lemma_perform_take(b: EncryptedBoot, s: Stack, steps: Seq<StepModel>, i: int)
    requires
        0 <= i < steps.len(),
    ensures
        perform(b, s, steps.take(i + 1)).0 == after(b, perform(b, s, steps.take(i)).0, steps[i]),
        perform(b, s, steps.take(i + 1)).1 == perform(b, s, steps.take(i)).1.push(
            observed(b, perform(b, s, steps.take(i)).0, steps[i]),
        ),
{
    assert(steps.take(i + 1) =~= steps.take(i).push(steps[i]));
    lemma_perform_push(b, s, steps.take(i), steps[i]);
}

/// Work whose every step passes succeeds.
pub proof fn lemma_status_all_pass(steps: Seq<StepModel>, obs: Seq<Observation>)
    requires
        obs.len() == steps.len(),
        forall|i: int| 0 <= i < steps.len() ==> step_passes(steps[i], #[trigger] obs[i]),
    ensures
        status(steps, obs) == Some(Ok::<(), ErrorModel>(())),
    decreases obs.len(),
{
    if steps.len() > 0 {
        assert(step_passes(steps[0], obs[0]));
        assert forall|i: int| 0 <= i < steps.len() - 1 implies step_passes(
            steps.drop_first()[i],
            #[trigger] obs.drop_first()[i],
        ) by {
            assert(step_passes(steps[i + 1], obs[i + 1]));
        }
        lemma_status_all_pass(steps.drop_first(), obs.drop_first());
    }
}

} // verus!
