//! The images that `cross` provides, and how they are named.

use vstd::prelude::*;
use vstd::string::StringExecFns;
use crate::docker::image::{ImagePlatform, CROSS_IMAGE, DEFAULT_IMAGE_VERSION};

verus! {

broadcast use vstd::string::group_string_axioms;

/// An image that `cross` provides.
#[derive(Debug)]
pub struct ProvidedImage {
    /// The `name` of the image, usually the target triplet
    pub name: &'static str,
    pub platforms: Vec<ImagePlatform>,
    pub sub: Option<&'static str>,
}

/// The name of an image: `repository/target:tag`, with `-sub` for a
/// sub-target.
pub open spec fn image_name_of(target: Seq<char>, sub: Option<Seq<char>>, repository: Seq<char>, tag: Seq<char>) -> Seq<char> {
    match sub {
        Some(s) => repository + "/"@ + target + ":"@ + tag + "-"@ + s,
        None => repository + "/"@ + target + ":"@ + tag,
    }
}

/// The name of an image (see [`image_name_of`]).
pub fn image_name(target: &str, sub: Option<&str>, repository: &str, tag: &str) -> (r: String)
    ensures
        r@ == image_name_of(target@, match sub { Some(s) => Some(s@), None => None }, repository@, tag@),
{
    let mut r = String::from_str(repository);
    r.append("/");
    r.append(target);
    r.append(":");
    r.append(tag);
    match sub {
        Some(s) => {
            r.append("-");
            r.append(s);
        },
        None => {},
    }
    r
}

impl ProvidedImage {
    /// The image's name in a repository, at a tag.
    pub fn image_name(&self, repository: &str, tag: &str) -> (r: String)
        ensures
            r@ == image_name_of(self.name@, match self.sub { Some(s) => Some(s@), None => None }, repository@, tag@),
    {
        image_name(self.name, self.sub, repository, tag)
    }

    /// The image's name in the repository of `cross`, at this version.
    pub fn default_image_name(&self) -> (r: String)
        ensures
            r@ == image_name_of(self.name@, match self.sub { Some(s) => Some(s@), None => None }, CROSS_IMAGE@,
                DEFAULT_IMAGE_VERSION@),
    {
        self.image_name(CROSS_IMAGE, DEFAULT_IMAGE_VERSION)
    }
}

/// The name and sub-target of each image that `cross` provides, in order.
pub open spec fn provided_table() -> Seq<(Seq<char>, Option<Seq<char>>)> {
    seq![
        ("x86_64-unknown-linux-gnu"@, None),
        ("x86_64-unknown-linux-musl"@, None),
        ("x86_64-unknown-linux-gnu"@, Some("centos"@)),
        ("aarch64-unknown-linux-gnu"@, None),
        ("arm-unknown-linux-gnueabi"@, None),
        ("arm-unknown-linux-gnueabihf"@, None),
        ("armv7-unknown-linux-gnueabi"@, None),
        ("armv7-unknown-linux-gnueabihf"@, None),
        ("thumbv7neon-unknown-linux-gnueabihf"@, None),
        ("i586-unknown-linux-gnu"@, None),
        ("i686-unknown-linux-gnu"@, None),
        ("mips-unknown-linux-gnu"@, None),
        ("mipsel-unknown-linux-gnu"@, None),
        ("mips64-unknown-linux-gnuabi64"@, None),
        ("mips64el-unknown-linux-gnuabi64"@, None),
        ("mips64-unknown-linux-muslabi64"@, None),
        ("mips64el-unknown-linux-muslabi64"@, None),
        ("powerpc-unknown-linux-gnu"@, None),
        ("powerpc64-unknown-linux-gnu"@, None),
        ("powerpc64le-unknown-linux-gnu"@, None),
        ("riscv64gc-unknown-linux-gnu"@, None),
        ("s390x-unknown-linux-gnu"@, None),
        ("sparc64-unknown-linux-gnu"@, None),
        ("aarch64-unknown-linux-musl"@, None),
        ("arm-unknown-linux-musleabihf"@, None),
        ("arm-unknown-linux-musleabi"@, None),
        ("armv5te-unknown-linux-gnueabi"@, None),
        ("armv5te-unknown-linux-musleabi"@, None),
        ("armv7-unknown-linux-musleabi"@, None),
        ("armv7-unknown-linux-musleabihf"@, None),
        ("i586-unknown-linux-musl"@, None),
        ("i686-unknown-linux-musl"@, None),
        ("mips-unknown-linux-musl"@, None),
        ("mipsel-unknown-linux-musl"@, None),
        ("aarch64-linux-android"@, None),
        ("arm-linux-androideabi"@, None),
        ("armv7-linux-androideabi"@, None),
        ("thumbv7neon-linux-androideabi"@, None),
        ("i686-linux-android"@, None),
        ("x86_64-linux-android"@, None),
        ("x86_64-pc-windows-gnu"@, None),
        ("i686-pc-windows-gnu"@, None),
        ("wasm32-unknown-emscripten"@, None),
        ("x86_64-unknown-dragonfly"@, None),
        ("i686-unknown-freebsd"@, None),
        ("x86_64-unknown-freebsd"@, None),
        ("x86_64-unknown-netbsd"@, None),
        ("sparcv9-sun-solaris"@, None),
        ("x86_64-sun-solaris"@, None),
        ("x86_64-unknown-illumos"@, None),
        ("thumbv6m-none-eabi"@, None),
        ("thumbv7em-none-eabi"@, None),
        ("thumbv7em-none-eabihf"@, None),
        ("thumbv7m-none-eabi"@, None),
        ("zig"@, None),
        ("aarch64-unknown-linux-gnu"@, Some("centos"@)),
    ]
}

/// The name and sub-target of each image.
pub open spec fn provided_view(v: Seq<ProvidedImage>) -> Seq<(Seq<char>, Option<Seq<char>>)> {
    v.map_values(|p: ProvidedImage| (p.name@, match p.sub { Some(s) => Some(s@), None => None }))
}

/// Each image runs on the default platform.
pub open spec fn on_default_platform(v: Seq<ProvidedImage>) -> bool {
    forall|i: int| 0 <= i < v.len() ==> (#[trigger] v[i]).platforms@.len() == 1
        && v[i].platforms@[0].target == crate::target::TargetTriple::X86_64UnknownLinuxGnu
        && v[i].platforms@[0].spec_parts() == (crate::docker::image::Architecture::Amd64, crate::docker::image::Os::Linux, None::<Seq<char>>)
}

fn provided(name: &'static str, sub: Option<&'static str>) -> (r: ProvidedImage)
    ensures
        r.name == name,
        r.sub == sub,
        r.platforms@.len() == 1,
        r.platforms@[0].target == crate::target::TargetTriple::X86_64UnknownLinuxGnu,
        r.platforms@[0].spec_parts() == (crate::docker::image::Architecture::Amd64, crate::docker::image::Os::Linux, None::<Seq<char>>),
{
    let mut platforms: Vec<ImagePlatform> = Vec::new();
    platforms.push(ImagePlatform::default_platform());
    ProvidedImage { name, platforms, sub }
}

/// The images that `cross` provides (see [`provided_table`]).
pub fn provided_images() -> (r: Vec<ProvidedImage>)
    ensures
        provided_view(r@) == provided_table(),
        on_default_platform(r@),
{
    let mut v: Vec<ProvidedImage> = Vec::new();
    v.push(provided("x86_64-unknown-linux-gnu", None));
    v.push(provided("x86_64-unknown-linux-musl", None));
    v.push(provided("x86_64-unknown-linux-gnu", Some("centos")));
    v.push(provided("aarch64-unknown-linux-gnu", None));
    v.push(provided("arm-unknown-linux-gnueabi", None));
    v.push(provided("arm-unknown-linux-gnueabihf", None));
    v.push(provided("armv7-unknown-linux-gnueabi", None));
    v.push(provided("armv7-unknown-linux-gnueabihf", None));
    v.push(provided("thumbv7neon-unknown-linux-gnueabihf", None));
    v.push(provided("i586-unknown-linux-gnu", None));
    v.push(provided("i686-unknown-linux-gnu", None));
    v.push(provided("mips-unknown-linux-gnu", None));
    v.push(provided("mipsel-unknown-linux-gnu", None));
    v.push(provided("mips64-unknown-linux-gnuabi64", None));
    v.push(provided("mips64el-unknown-linux-gnuabi64", None));
    v.push(provided("mips64-unknown-linux-muslabi64", None));
    v.push(provided("mips64el-unknown-linux-muslabi64", None));
    v.push(provided("powerpc-unknown-linux-gnu", None));
    v.push(provided("powerpc64-unknown-linux-gnu", None));
    v.push(provided("powerpc64le-unknown-linux-gnu", None));
    v.push(provided("riscv64gc-unknown-linux-gnu", None));
    v.push(provided("s390x-unknown-linux-gnu", None));
    v.push(provided("sparc64-unknown-linux-gnu", None));
    v.push(provided("aarch64-unknown-linux-musl", None));
    v.push(provided("arm-unknown-linux-musleabihf", None));
    v.push(provided("arm-unknown-linux-musleabi", None));
    v.push(provided("armv5te-unknown-linux-gnueabi", None));
    v.push(provided("armv5te-unknown-linux-musleabi", None));
    v.push(provided("armv7-unknown-linux-musleabi", None));
    v.push(provided("armv7-unknown-linux-musleabihf", None));
    v.push(provided("i586-unknown-linux-musl", None));
    v.push(provided("i686-unknown-linux-musl", None));
    v.push(provided("mips-unknown-linux-musl", None));
    v.push(provided("mipsel-unknown-linux-musl", None));
    v.push(provided("aarch64-linux-android", None));
    v.push(provided("arm-linux-androideabi", None));
    v.push(provided("armv7-linux-androideabi", None));
    v.push(provided("thumbv7neon-linux-androideabi", None));
    v.push(provided("i686-linux-android", None));
    v.push(provided("x86_64-linux-android", None));
    v.push(provided("x86_64-pc-windows-gnu", None));
    v.push(provided("i686-pc-windows-gnu", None));
    v.push(provided("wasm32-unknown-emscripten", None));
    v.push(provided("x86_64-unknown-dragonfly", None));
    v.push(provided("i686-unknown-freebsd", None));
    v.push(provided("x86_64-unknown-freebsd", None));
    v.push(provided("x86_64-unknown-netbsd", None));
    v.push(provided("sparcv9-sun-solaris", None));
    v.push(provided("x86_64-sun-solaris", None));
    v.push(provided("x86_64-unknown-illumos", None));
    v.push(provided("thumbv6m-none-eabi", None));
    v.push(provided("thumbv7em-none-eabi", None));
    v.push(provided("thumbv7em-none-eabihf", None));
    v.push(provided("thumbv7m-none-eabi", None));
    v.push(provided("zig", None));
    v.push(provided("aarch64-unknown-linux-gnu", Some("centos")));
    assert(provided_view(v@) =~= provided_table());
    v
}

} // verus!
