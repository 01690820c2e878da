//! The closed set of package namespaces a declaration can belong to.

use vstd::prelude::*;
use crate::text::str_eq;

verus! {

/// A package namespace, drawn from a closed set of well-known names, with a
/// catch-all `Unknown` for namespace strings outside the set.
#[derive(Debug, Clone, Copy, PartialEq, Eq, Structural)]
pub enum PackageCategory {
    AppAdmin,
    AppEditors,
    AppMisc,
    DevLang,
    DevLibs,
    DevPython,
    DevUtil,
    MediaGfx,
    MediaLibs,
    NetMisc,
    SysApps,
    SysDevel,
    SysKernel,
    SysLibs,
    WwwClient,
    X11Base,
    X11Libs,
    Unknown,
}

impl PackageCategory {
    /// The namespace string this category renders as in qualified names.
    pub open spec fn label_seq(self) -> Seq<char> {
        match self {
            PackageCategory::AppAdmin => "app-admin"@,
            PackageCategory::AppEditors => "app-editors"@,
            PackageCategory::AppMisc => "app-misc"@,
            PackageCategory::DevLang => "dev-lang"@,
            PackageCategory::DevLibs => "dev-libs"@,
            PackageCategory::DevPython => "dev-python"@,
            PackageCategory::DevUtil => "dev-util"@,
            PackageCategory::MediaGfx => "media-gfx"@,
            PackageCategory::MediaLibs => "media-libs"@,
            PackageCategory::NetMisc => "net-misc"@,
            PackageCategory::SysApps => "sys-apps"@,
            PackageCategory::SysDevel => "sys-devel"@,
            PackageCategory::SysKernel => "sys-kernel"@,
            PackageCategory::SysLibs => "sys-libs"@,
            PackageCategory::WwwClient => "www-client"@,
            PackageCategory::X11Base => "x11-base"@,
            PackageCategory::X11Libs => "x11-libs"@,
            PackageCategory::Unknown => "unknown"@,
        }
    }

    /// The category a namespace string denotes; strings outside the known
    /// set fall back to `Unknown` instead of failing.
    pub open spec fn of_label(s: Seq<char>) -> PackageCategory {
        if s == "app-admin"@ {
            PackageCategory::AppAdmin
        } else if s == "app-editors"@ {
            PackageCategory::AppEditors
        } else if s == "app-misc"@ {
            PackageCategory::AppMisc
        } else if s == "dev-lang"@ {
            PackageCategory::DevLang
        } else if s == "dev-libs"@ {
            PackageCategory::DevLibs
        } else if s == "dev-python"@ {
            PackageCategory::DevPython
        } else if s == "dev-util"@ {
            PackageCategory::DevUtil
        } else if s == "media-gfx"@ {
            PackageCategory::MediaGfx
        } else if s == "media-libs"@ {
            PackageCategory::MediaLibs
        } else if s == "net-misc"@ {
            PackageCategory::NetMisc
        } else if s == "sys-apps"@ {
            PackageCategory::SysApps
        } else if s == "sys-devel"@ {
            PackageCategory::SysDevel
        } else if s == "sys-kernel"@ {
            PackageCategory::SysKernel
        } else if s == "sys-libs"@ {
            PackageCategory::SysLibs
        } else if s == "www-client"@ {
            PackageCategory::WwwClient
        } else if s == "x11-base"@ {
            PackageCategory::X11Base
        } else if s == "x11-libs"@ {
            PackageCategory::X11Libs
        } else {
            PackageCategory::Unknown
        }
    }

    /// Matches a namespace string against the known category set.
    pub fn from_label(s: &str) -> (c: PackageCategory)
        ensures
            c == PackageCategory::of_label(s@),
    {
        if str_eq(s, "app-admin") {
            PackageCategory::AppAdmin
        } else if str_eq(s, "app-editors") {
            PackageCategory::AppEditors
        } else if str_eq(s, "app-misc") {
            PackageCategory::AppMisc
        } else if str_eq(s, "dev-lang") {
            PackageCategory::DevLang
        } else if str_eq(s, "dev-libs") {
            PackageCategory::DevLibs
        } else if str_eq(s, "dev-python") {
            PackageCategory::DevPython
        } else if str_eq(s, "dev-util") {
            PackageCategory::DevUtil
        } else if str_eq(s, "media-gfx") {
            PackageCategory::MediaGfx
        } else if str_eq(s, "media-libs") {
            PackageCategory::MediaLibs
        } else if str_eq(s, "net-misc") {
            PackageCategory::NetMisc
        } else if str_eq(s, "sys-apps") {
            PackageCategory::SysApps
        } else if str_eq(s, "sys-devel") {
            PackageCategory::SysDevel
        } else if str_eq(s, "sys-kernel") {
            PackageCategory::SysKernel
        } else if str_eq(s, "sys-libs") {
            PackageCategory::SysLibs
        } else if str_eq(s, "www-client") {
            PackageCategory::WwwClient
        } else if str_eq(s, "x11-base") {
            PackageCategory::X11Base
        } else if str_eq(s, "x11-libs") {
            PackageCategory::X11Libs
        } else {
            PackageCategory::Unknown
        }
    }

    /// Renders the namespace string of this category.
    pub fn label(&self) -> (r: String)
        ensures
            r@ == self.label_seq(),
    {
        match self {
            PackageCategory::AppAdmin => String::from_str("app-admin"),
            PackageCategory::AppEditors => String::from_str("app-editors"),
            PackageCategory::AppMisc => String::from_str("app-misc"),
            PackageCategory::DevLang => String::from_str("dev-lang"),
            PackageCategory::DevLibs => String::from_str("dev-libs"),
            PackageCategory::DevPython => String::from_str("dev-python"),
            PackageCategory::DevUtil => String::from_str("dev-util"),
            PackageCategory::MediaGfx => String::from_str("media-gfx"),
            PackageCategory::MediaLibs => String::from_str("media-libs"),
            PackageCategory::NetMisc => String::from_str("net-misc"),
            PackageCategory::SysApps => String::from_str("sys-apps"),
            PackageCategory::SysDevel => String::from_str("sys-devel"),
            PackageCategory::SysKernel => String::from_str("sys-kernel"),
            PackageCategory::SysLibs => String::from_str("sys-libs"),
            PackageCategory::WwwClient => String::from_str("www-client"),
            PackageCategory::X11Base => String::from_str("x11-base"),
            PackageCategory::X11Libs => String::from_str("x11-libs"),
            PackageCategory::Unknown => String::from_str("unknown"),
        }
    }
}

} // verus!
