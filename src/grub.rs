use crate::boot;
use crate::command::{Invocation, Step, StepModel, cmd, plan_model, texts};
use vstd::prelude::*;

verus! {

/// The modules built into every image.
pub open spec fn base_modules() -> Seq<Seq<char>> {
    seq![
        "all_video"@,
        "boot"@,
        "btrfs"@,
        "cat"@,
        "chain"@,
        "configfile"@,
        "echo"@,
        "efifwsetup"@,
        "efinet"@,
        "ext2"@,
        "fat"@,
        "font"@,
        "gettext"@,
        "gfxmenu"@,
        "gfxterm"@,
        "gfxterm_background"@,
        "gzio"@,
        "halt"@,
        "help"@,
        "hfsplus"@,
        "iso9660"@,
        "jpeg"@,
        "keystatus"@,
        "loadenv"@,
        "loopback"@,
        "linux"@,
        "ls"@,
        "lsefi"@,
        "lsefimmap"@,
        "lsefisystab"@,
        "lssal"@,
        "memdisk"@,
        "minicmd"@,
        "normal"@,
        "ntfs"@,
        "part_apple"@,
        "part_msdos"@,
        "part_gpt"@,
        "password_pbkdf2"@,
        "png"@,
        "probe"@,
        "reboot"@,
        "regexp"@,
        "search"@,
        "search_fs_uuid"@,
        "search_fs_file"@,
        "search_label"@,
        "sleep"@,
        "smbios"@,
        "squash4"@,
        "test"@,
        "true"@,
        "video"@,
        "xfs"@,
        "zfs"@,
        "zfscrypt"@,
        "zfsinfo"@,
        "cryptodisk"@,
        "gcry_arcfour"@,
        "gcry_blowfish"@,
        "gcry_camellia"@,
        "gcry_cast5"@,
        "gcry_crc"@,
        "gcry_des"@,
        "gcry_dsa"@,
        "gcry_idea"@,
        "gcry_md4"@,
        "gcry_md5"@,
        "gcry_rfc2268"@,
        "gcry_rijndael"@,
        "gcry_rmd160"@,
        "gcry_rsa"@,
        "gcry_seed"@,
        "gcry_serpent"@,
        "gcry_sha1"@,
        "gcry_sha256"@,
        "gcry_sha512"@,
        "gcry_tiger"@,
        "gcry_twofish"@,
        "gcry_whirlpool"@,
        "luks"@,
        "lvm"@,
        "mdraid09"@,
        "mdraid1x"@,
        "raid5rec"@,
        "raid6rec"@,
    ]
}

/// The modules added for an EFI target.
pub open spec fn target_modules(target: Seq<char>) -> Seq<Seq<char>> {
    if target == "x86_64-efi"@ || target == "i386-efi"@ {
        seq!["cpuid"@, "play"@, "tpm"@]
    } else {
        Seq::empty()
    }
}

/// `mods` followed by each module of `extra` that is not yet among them, in order.
pub open spec fn add_missing(mods: Seq<Seq<char>>, extra: Seq<Seq<char>>) -> Seq<Seq<char>>
    decreases extra.len(),
{
    if extra.len() == 0 {
        mods
    } else {
        let prev = add_missing(mods, extra.drop_last());
        if prev.contains(extra.last()) {
            prev
        } else {
            prev.push(extra.last())
        }
    }
}

/// Adding modules keeps the ones already listed, in place and in order;
/// afterwards every added module is listed; and a module is listed twice
/// only if it already was.
pub proof fn lemma_add_missing(mods: Seq<Seq<char>>, extra: Seq<Seq<char>>)
    ensures
        add_missing(mods, extra).len() >= mods.len(),
        add_missing(mods, extra).take(mods.len() as int) == mods,
        forall|j: int| 0 <= j < extra.len() ==> add_missing(mods, extra).contains(#[trigger] extra[j]),
        mods.no_duplicates() ==> add_missing(mods, extra).no_duplicates(),
    decreases extra.len(),
{
    if extra.len() > 0 {
        let prev = add_missing(mods, extra.drop_last());
        lemma_add_missing(mods, extra.drop_last());
        let r = add_missing(mods, extra);
        if !prev.contains(extra.last()) {
            assert(r.take(mods.len() as int) =~= prev.take(mods.len() as int));
            assert(r[prev.len() as int] == extra.last());
        }
        assert forall|j: int| 0 <= j < extra.len() implies r.contains(#[trigger] extra[j]) by {
            if j < extra.len() - 1 {
                assert(extra.drop_last()[j] == extra[j]);
                let k = choose|k: int| 0 <= k < prev.len() && prev[k] == extra[j];
                assert(r[k] == extra[j]);
            } else if !prev.contains(extra.last()) {
                assert(r[prev.len() as int] == extra[j]);
            }
        }
    }
}

/// The words of `words`, each followed by a space but the last.
pub open spec fn spaced(words: Seq<Seq<char>>) -> Seq<char>
    decreases words.len(),
{
    if words.len() == 0 {
        Seq::empty()
    } else if words.len() == 1 {
        words[0]
    } else {
        spaced(words.drop_last()) + " "@ + words.last()
    }
}

fn text(s: &str) -> (r: String)
    ensures
        r@ == s@,
{
    s.to_string()
}

fn base_module_list() -> (r: Vec<String>)
    ensures
        texts(r@) == base_modules(),
{
    let r: Vec<String> = vec![
        text("all_video"),
        text("boot"),
        text("btrfs"),
        text("cat"),
        text("chain"),
        text("configfile"),
        text("echo"),
        text("efifwsetup"),
        text("efinet"),
        text("ext2"),
        text("fat"),
        text("font"),
        text("gettext"),
        text("gfxmenu"),
        text("gfxterm"),
        text("gfxterm_background"),
        text("gzio"),
        text("halt"),
        text("help"),
        text("hfsplus"),
        text("iso9660"),
        text("jpeg"),
        text("keystatus"),
        text("loadenv"),
        text("loopback"),
        text("linux"),
        text("ls"),
        text("lsefi"),
        text("lsefimmap"),
        text("lsefisystab"),
        text("lssal"),
        text("memdisk"),
        text("minicmd"),
        text("normal"),
        text("ntfs"),
        text("part_apple"),
        text("part_msdos"),
        text("part_gpt"),
        text("password_pbkdf2"),
        text("png"),
        text("probe"),
        text("reboot"),
        text("regexp"),
        text("search"),
        text("search_fs_uuid"),
        text("search_fs_file"),
        text("search_label"),
        text("sleep"),
        text("smbios"),
        text("squash4"),
        text("test"),
        text("true"),
        text("video"),
        text("xfs"),
        text("zfs"),
        text("zfscrypt"),
        text("zfsinfo"),
        text("cryptodisk"),
        text("gcry_arcfour"),
        text("gcry_blowfish"),
        text("gcry_camellia"),
        text("gcry_cast5"),
        text("gcry_crc"),
        text("gcry_des"),
        text("gcry_dsa"),
        text("gcry_idea"),
        text("gcry_md4"),
        text("gcry_md5"),
        text("gcry_rfc2268"),
        text("gcry_rijndael"),
        text("gcry_rmd160"),
        text("gcry_rsa"),
        text("gcry_seed"),
        text("gcry_serpent"),
        text("gcry_sha1"),
        text("gcry_sha256"),
        text("gcry_sha512"),
        text("gcry_tiger"),
        text("gcry_twofish"),
        text("gcry_whirlpool"),
        text("luks"),
        text("lvm"),
        text("mdraid09"),
        text("mdraid1x"),
        text("raid5rec"),
        text("raid6rec"),
    ];
    assert(texts(r@) =~= base_modules());
    r
}

/// How the boot loader is built and installed.
pub struct Config {
    pub target: String,
    pub bootloader_id: String,
    /// Modules wanted beyond the built-in ones.
    pub add_modules: Vec<String>,
}

impl Default for Config {
    fn default() -> (r: Config)
        ensures
            r.target@ == "x86_64-efi"@,
            r.bootloader_id@ == "GRUB"@,
            r.add_modules@.len() == 0,
    {
        Config { target: text("x86_64-efi"), bootloader_id: text("GRUB"), add_modules: Vec::new() }
    }
}

/// The boot loader installer.
pub struct Grub(Config);

impl Grub {
    pub closed spec fn config(&self) -> Config {
        self.0
    }

    pub fn from_config(config: Config) -> (r: Grub)
        ensures
            r.config() == config,
    {
        Grub(config)
    }

    /// The built-in modules, those of the target, then each added module not
    /// already listed.
    pub fn modules_for_target(&self, target: &str) -> (r: Vec<String>)
        ensures
            texts(r@) == add_missing(
                base_modules() + target_modules(target@),
                texts(self.config().add_modules@),
            ),
    {
        let mut modules = base_module_list();
        let t = text(target);
        if t == text("x86_64-efi") || t == text("i386-efi") {
            modules.push(text("cpuid"));
            modules.push(text("play"));
            modules.push(text("tpm"));
        }
        let ghost start = base_modules() + target_modules(target@);
        assert(texts(modules@) =~= start);
        let extra = &self.0.add_modules;
        let mut i: usize = 0;
        while i < extra.len()
            invariant
                i <= extra@.len(),
                texts(modules@) == add_missing(start, texts(extra@).take(i as int)),
            decreases extra@.len() - i,
        {
            let ghost before = texts(modules@);
            let ghost wanted = texts(extra@).take(i as int + 1);
            assert(wanted.drop_last() =~= texts(extra@).take(i as int));
            let found = contains(&modules, &extra[i]);
            if !found {
                modules.push(extra[i].clone());
                assert(texts(modules@) =~= before.push(extra@[i as int]@));
            }
            i = i + 1;
        }
        assert(texts(extra@).take(extra@.len() as int) =~= texts(extra@));
        modules
    }

    /// Generate the configuration inside the boot partition of `cfg`: its
    /// `grub` directory is made if missing, then `grub-mkconfig` writes
    /// `grub.cfg` there.
    pub fn mkconfig(&self, cfg: &boot::Config) -> (r: Vec<Step>)
        ensures
            plan_model(r@) == mkconfig_steps(cfg.mountpoint@),
    {
        let dir = cfg.mountpoint.clone().concat("/grub");
        let file = dir.clone().concat("/grub.cfg");
        let args: Vec<String> = vec![text("-o"), file];
        let r: Vec<Step> = vec![
            Step::EnsureDirectory(dir),
            Step::Run(Invocation { program: text("grub-mkconfig"), args, quiet: false }),
        ];
        assert(texts(r@[1]->Run_0.args@) =~= seq!["-o"@, cfg.mountpoint@ + "/grub"@ + "/grub.cfg"@]);
        assert(plan_model(r@) =~= mkconfig_steps(cfg.mountpoint@));
        r
    }

    /// Install into the EFI partition of `cfg`: its mountpoint must be a
    /// directory, then `grub-install` must succeed.
    pub fn install(&self, cfg: &boot::Config) -> (r: Vec<Step>)
        ensures
            plan_model(r@) == seq![
                StepModel::RequireDirectory(cfg.efi.mountpoint@),
                StepModel::Run(cmd("grub-install"@, install_args(self.config(), cfg.efi.mountpoint@), false)),
            ],
    {
        let esp = cfg.efi.mountpoint.clone();
        let modules = self.modules_for_target(self.0.target.as_str());
        let args: Vec<String> = vec![
            text("--target=").concat(self.0.target.as_str()),
            text("--efi-directory=").concat(esp.as_str()),
            text("--bootloader-id=").concat(self.0.bootloader_id.as_str()),
            text("--modules=").concat(join_spaced(&modules).as_str()),
            text("--disable-shim-lock"),
        ];
        let r: Vec<Step> = vec![
            Step::RequireDirectory(esp),
            Step::Run(Invocation { program: text("grub-install"), args, quiet: false }),
        ];
        assert(texts(args@) =~= install_args(self.config(), cfg.efi.mountpoint@));
        assert(plan_model(r@) =~= seq![
            StepModel::RequireDirectory(cfg.efi.mountpoint@),
            StepModel::Run(cmd("grub-install"@, install_args(self.config(), cfg.efi.mountpoint@), false)),
        ]);
        r
    }
}

/// Make `<mountpoint>/grub`, then write `<mountpoint>/grub/grub.cfg`.
pub open spec fn mkconfig_steps(mountpoint: Seq<char>) -> Seq<StepModel> {
    seq![
        StepModel::EnsureDirectory(mountpoint + "/grub"@),
        StepModel::Run(cmd("grub-mkconfig"@, seq!["-o"@, mountpoint + "/grub"@ + "/grub.cfg"@], false)),
    ]
}

/// The arguments of `grub-install` for configuration `c` and EFI directory `esp`.
pub open spec fn install_args(c: Config, esp: Seq<char>) -> Seq<Seq<char>> {
    seq![
        "--target="@ + c.target@,
        "--efi-directory="@ + esp,
        "--bootloader-id="@ + c.bootloader_id@,
        "--modules="@ + spaced(add_missing(base_modules() + target_modules(c.target@), texts(c.add_modules@))),
        "--disable-shim-lock"@,
    ]
}

fn contains(v: &Vec<String>, s: &String) -> (r: bool)
    ensures
        r == texts(v@).contains(s@),
{
    let mut i: usize = 0;
    while i < v.len()
        invariant
            i <= v@.len(),
            forall|j: int| 0 <= j < i ==> v@[j]@ != s@,
        decreases v@.len() - i,
    {
        if v[i] == *s {
            assert(texts(v@)[i as int] == s@);
            return true;
        }
        i = i + 1;
    }
    assert(!texts(v@).contains(s@)) by {
        if texts(v@).contains(s@) {
            let j = choose|j: int| 0 <= j < texts(v@).len() && texts(v@)[j] == s@;
            assert(v@[j]@ == s@);
        }
    }
    false
}

fn join_spaced(words: &Vec<String>) -> (r: String)
    ensures
        r@ == spaced(texts(words@)),
{
    let mut r = String::new();
    let mut i: usize = 0;
    while i < words.len()
        invariant
            i <= words@.len(),
            r@ == spaced(texts(words@).take(i as int)),
        decreases words@.len() - i,
    {
        let ghost w = texts(words@).take(i as int + 1);
        assert(w.drop_last() =~= texts(words@).take(i as int));
        if i > 0 {
            r.append(" ");
        } else {
            assert(texts(words@).take(0) =~= Seq::<Seq<char>>::empty());
        }
        r.append(words[i].as_str());
        i = i + 1;
    }
    assert(texts(words@).take(words@.len() as int) =~= texts(words@));
    r
}

} // verus!
