//! Rustup installer synchronization: the fixed platform set and the
//! per-platform download tasks, each with its sidecar-verified file name.
use vstd::prelude::*;

use crate::config::{ProxyConfig, RustUpConfig};
use crate::text;

verus! {

/// Options of one `rustup` invocation.
#[derive(Clone, Debug)]
pub struct RustUpOptions {
    pub config: RustUpConfig,
    pub proxy: ProxyConfig,
    pub rustup_path: String,
}

/// The target triples rustup installers are mirrored for.
pub fn platforms() -> (r: Vec<&'static str>)
    ensures
        r@.len() == 28,
        r@[0]@ == "aarch64-linux-android"@,
        r@[1]@ == "aarch64-unknown-linux-gnu"@,
        r@[2]@ == "arm-linux-androideabi"@,
        r@[3]@ == "arm-unknown-linux-gnueabi"@,
        r@[4]@ == "arm-unknown-linux-gnueabihf"@,
        r@[5]@ == "armv7-linux-androideabi"@,
        r@[6]@ == "armv7-unknown-linux-gnueabihf"@,
        r@[7]@ == "i686-apple-darwin"@,
        r@[8]@ == "i686-linux-android"@,
        r@[9]@ == "i686-unknown-linux-gnu"@,
        r@[10]@ == "mips-unknown-linux-gnu"@,
        r@[11]@ == "mips64-unknown-linux-gnuabi64"@,
        r@[12]@ == "mips64el-unknown-linux-gnuabi64"@,
        r@[13]@ == "mipsel-unknown-linux-gnu"@,
        r@[14]@ == "powerpc-unknown-linux-gnu"@,
        r@[15]@ == "powerpc64-unknown-linux-gnu"@,
        r@[16]@ == "powerpc64le-unknown-linux-gnu"@,
        r@[17]@ == "s390x-unknown-linux-gnu"@,
        r@[18]@ == "x86_64-apple-darwin"@,
        r@[19]@ == "x86_64-linux-android"@,
        r@[20]@ == "x86_64-unknown-freebsd"@,
        r@[21]@ == "x86_64-unknown-linux-gnu"@,
        r@[22]@ == "x86_64-unknown-linux-musl"@,
        r@[23]@ == "x86_64-unknown-netbsd"@,
        r@[24]@ == "i686-pc-windows-gnu"@,
        r@[25]@ == "i686-pc-windows-msvc"@,
        r@[26]@ == "x86_64-pc-windows-gnu"@,
        r@[27]@ == "x86_64-pc-windows-msvc"@,
{
    let mut r: Vec<&'static str> = Vec::new();
    r.push("aarch64-linux-android");
    r.push("aarch64-unknown-linux-gnu");
    r.push("arm-linux-androideabi");
    r.push("arm-unknown-linux-gnueabi");
    r.push("arm-unknown-linux-gnueabihf");
    r.push("armv7-linux-androideabi");
    r.push("armv7-unknown-linux-gnueabihf");
    r.push("i686-apple-darwin");
    r.push("i686-linux-android");
    r.push("i686-unknown-linux-gnu");
    r.push("mips-unknown-linux-gnu");
    r.push("mips64-unknown-linux-gnuabi64");
    r.push("mips64el-unknown-linux-gnuabi64");
    r.push("mipsel-unknown-linux-gnu");
    r.push("powerpc-unknown-linux-gnu");
    r.push("powerpc64-unknown-linux-gnu");
    r.push("powerpc64le-unknown-linux-gnu");
    r.push("s390x-unknown-linux-gnu");
    r.push("x86_64-apple-darwin");
    r.push("x86_64-linux-android");
    r.push("x86_64-unknown-freebsd");
    r.push("x86_64-unknown-linux-gnu");
    r.push("x86_64-unknown-linux-musl");
    r.push("x86_64-unknown-netbsd");
    r.push("i686-pc-windows-gnu");
    r.push("i686-pc-windows-msvc");
    r.push("x86_64-pc-windows-gnu");
    r.push("x86_64-pc-windows-msvc");
    r
}

/// The installer file name of a platform: Windows platforms take the `.exe`
/// installer, every other platform the plain one.
pub open spec fn rustup_file_of(platform: Seq<char>) -> Seq<char> {
    if text::contains_sub(platform, "windows"@) {
        "rustup-init.exe"@
    } else {
        "rustup-init"@
    }
}

/// One rustup installer download: its URL, the directory it lands in, and
/// its file name (its sidecar hash is fetched beside it).
pub struct RustupTask {
    pub url: String,
    pub folder: String,
    pub file_name: String,
}

/// The release-channel manifest fetched before the installers: its URL and
/// its local path. It is always re-fetched.
pub fn release_stable_task(opts: &RustUpOptions) -> (r: (String, String))
    ensures
        r.0@ == opts.config.domain@ + "/rustup/release-stable.toml"@,
        r.1@ == opts.rustup_path@ + "/release-stable.toml"@,
{
    let mut url = String::from_str(opts.config.domain.as_str());
    url.append("/rustup/release-stable.toml");
    let mut path = String::from_str(opts.rustup_path.as_str());
    path.append("/release-stable.toml");
    (url, path)
}

/// The per-platform installer downloads of one `rustup download` run, in
/// platform order: each platform's installer from
/// `<domain>/rustup/dist/<platform>/<file>` into
/// `<rustup_path>/dist/<platform>`.
pub fn sync_rustup_init(opts: &RustUpOptions, platform_list: &Vec<&str>) -> (r: Vec<RustupTask>)
    ensures
        r@.len() == platform_list@.len(),
        forall|i: int| 0 <= i < r@.len() ==> {
            &&& (#[trigger] r@[i]).file_name@ == rustup_file_of(platform_list@[i]@)
            &&& r@[i].url@ == opts.config.domain@ + "/rustup/dist/"@ + platform_list@[i]@
                + seq!['/'] + rustup_file_of(platform_list@[i]@)
            &&& r@[i].folder@ == opts.rustup_path@ + "/dist/"@ + platform_list@[i]@
        },
{
    proof {
        reveal_strlit("/");
    }
    let mut r: Vec<RustupTask> = Vec::new();
    let mut i: usize = 0;
    while i < platform_list.len()
        invariant
            i <= platform_list@.len(),
            r@.len() == i,
            forall|k: int| 0 <= k < i ==> {
                &&& (#[trigger] r@[k]).file_name@ == rustup_file_of(platform_list@[k]@)
                &&& r@[k].url@ == opts.config.domain@ + "/rustup/dist/"@ + platform_list@[k]@
                    + seq!['/'] + rustup_file_of(platform_list@[k]@)
                &&& r@[k].folder@ == opts.rustup_path@ + "/dist/"@ + platform_list@[k]@
            },
        decreases platform_list@.len() - i,
    {
        proof {
            reveal_strlit("/");
        }
        let platform = platform_list[i];
        let file_name = if text::str_contains(platform, "windows") {
            String::from_str("rustup-init.exe")
        } else {
            String::from_str("rustup-init")
        };
        assert(file_name@ == rustup_file_of(platform@));
        let mut url = String::from_str(opts.config.domain.as_str());
        url.append("/rustup/dist/");
        url.append(platform);
        url.append("/");
        url.append(file_name.as_str());
        let mut folder = String::from_str(opts.rustup_path.as_str());
        folder.append("/dist/");
        folder.append(platform);
        proof {
            assert(url@ =~= opts.config.domain@ + "/rustup/dist/"@ + platform@ + seq!['/']
                + rustup_file_of(platform@));
            assert(folder@ =~= opts.rustup_path@ + "/dist/"@ + platform@);
        }
        r.push(RustupTask { url, folder, file_name });
        i += 1;
    }
    r
}

} // verus!
