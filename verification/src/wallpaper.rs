//! Chooses how the desktop's background is set.
//!
//! Running the commands is the caller's part; which one to run, and with
//! what words, is decided here.

use vstd::prelude::*;
use vstd::string::{StrSliceExecFns, StringExecFns};

verus! {

/// A way of setting the desktop's background.
#[derive(Debug, Clone, Copy, PartialEq, Eq, Structural)]
pub enum Backend {
    /// The command that the user gave.
    UserCommand,
    /// GNOME's settings.
    Gnome,
    /// KDE's desktop shell.
    Kde,
    /// A script for Windows.
    Windows,
    /// A script for macOS.
    MacOs,
}

/// Why no way of setting the background was found.
#[derive(Debug, Clone, Copy, PartialEq, Eq, Structural)]
pub enum Unsupported {
    /// The operating system is none of Linux, Windows and macOS.
    Os,
    /// The desktop is not known.
    NoDesktop,
    /// The desktop is neither GNOME nor KDE.
    Desktop,
}

/// The backend for an operating system, a desktop, and whether the user
/// gave a command. The user's command counts on Linux only.
pub open spec fn spec_backend(os: Seq<char>, has_command: bool, desktop: Option<Seq<char>>) -> Result<
    Backend,
    Unsupported,
> {
    if os == "linux"@ {
        if has_command {
            Ok(Backend::UserCommand)
        } else {
            match desktop {
                None => Err(Unsupported::NoDesktop),
                Some(d) => if d == "GNOME"@ || d == "ubuntu:GNOME"@ {
                    Ok(Backend::Gnome)
                } else if d == "KDE"@ {
                    Ok(Backend::Kde)
                } else {
                    Err(Unsupported::Desktop)
                },
            }
        }
    } else if os == "windows"@ {
        Ok(Backend::Windows)
    } else if os == "macos"@ {
        Ok(Backend::MacOs)
    } else {
        Err(Unsupported::Os)
    }
}

/// The GNOME setting that holds the background for a colour scheme.
pub open spec fn spec_picture_key(color_scheme: Seq<char>) -> Seq<char> {
    if color_scheme == "'prefer-dark'"@ {
        "picture-uri-dark"@
    } else {
        "picture-uri"@
    }
}

/// The Windows script up to the wallpaper's path.
pub const WINDOWS_SCRIPT_HEAD: &'static str = "
$code = @'
using System.Runtime.InteropServices;
namespace Win32 {
    public class Wallpaper {
        [DllImport(\"user32.dll\", CharSet=CharSet.Auto)]
        static extern int SystemParametersInfo (int uAction, int uParam, string lpvParam, int fuWinIni);

        public static void SetWallpaper(string thePath) {
            SystemParametersInfo(20, 0, thePath, 3);
        }
    }
}
'@

add-type $code

# Apply the Change on the system
[Win32.Wallpaper]::SetWallpaper(\"";

/// The KDE script up to the wallpaper's address.
pub const KDE_SCRIPT_HEAD: &'static str = "
                var allDesktops = desktops();
                for (i=0;i<allDesktops.length;i++) {
                    d = allDesktops[i];
                    d.wallpaperPlugin = \"org.kde.image\";
                    d.currentConfigGroup = Array(\"Wallpaper\",
                                                 \"org.kde.image\",
                                                 \"General\");
                    // reset the current wallpaper, otherwise it is not reloaded
                    d.writeConfig(\"Image\", null);
                    d.writeConfig(\"Image\", \"";

/// The KDE script after the wallpaper's address.
pub const KDE_SCRIPT_TAIL: &'static str = "\");
                }
                ";

/// Whether two strings are the same.
pub fn same(a: &str, b: &str) -> (eq: bool)
    ensures
        eq == (a@ == b@),
{
    let len = a.unicode_len();
    if len != b.unicode_len() {
        return false;
    }
    let mut i: usize = 0;
    while i < len
        invariant
            i <= len,
            len == a@.len(),
            len == b@.len(),
            forall|k: int| 0 <= k < i ==> a@[k] == b@[k],
        decreases len - i,
    {
        if a.get_char(i) != b.get_char(i) {
            return false;
        }
        i = i + 1;
    }
    assert(a@ =~= b@);
    true
}

/// The backend for the operating system `os`, the desktop that the session
/// names, if it names one, and whether the user gave a command.
pub fn choose_backend(os: &str, has_command: bool, desktop: Option<&str>) -> (out: Result<Backend, Unsupported>)
    ensures
        out == spec_backend(
            os@,
            has_command,
            match desktop {
                Some(d) => Some(d@),
                None => None,
            },
        ),
{
    if same(os, "linux") {
        if has_command {
            return Ok(Backend::UserCommand);
        }
        match desktop {
            None => Err(Unsupported::NoDesktop),
            Some(d) => if same(d, "GNOME") || same(d, "ubuntu:GNOME") {
                Ok(Backend::Gnome)
            } else if same(d, "KDE") {
                Ok(Backend::Kde)
            } else {
                Err(Unsupported::Desktop)
            },
        }
    } else if same(os, "windows") {
        Ok(Backend::Windows)
    } else if same(os, "macos") {
        Ok(Backend::MacOs)
    } else {
        Err(Unsupported::Os)
    }
}

/// The GNOME setting that holds the background for the colour scheme that
/// GNOME reports, without the space around it.
pub fn picture_key(color_scheme: &str) -> (key: &'static str)
    ensures
        key@ == spec_picture_key(color_scheme@),
{
    if same(color_scheme, "'prefer-dark'") {
        "picture-uri-dark"
    } else {
        "picture-uri"
    }
}

/// The address of a file for the desktop's settings.
pub fn file_uri(path: &str) -> (uri: String)
    ensures
        uri@ == "file://"@ + path@,
{
    let mut uri = String::from_str("file://");
    uri.append(path);
    uri
}

/// The user's command followed by the wallpaper's address.
pub fn user_command_line(command: &str, path: &str) -> (line: String)
    ensures
        line@ == command@ + " file://"@ + path@,
{
    let mut line = String::from_str(command);
    line.append(" file://");
    line.append(path);
    line
}

/// The PowerShell script that makes the file at `path` the background on
/// Windows. The script breaks where its layout is changed.
pub fn windows_script(path: &str) -> (script: String)
    ensures
        script@ == WINDOWS_SCRIPT_HEAD@ + path@ + "\")"@,
{
    let mut script = String::from_str(WINDOWS_SCRIPT_HEAD);
    script.append(path);
    script.append("\")");
    script
}

/// The AppleScript that makes the file at `path` the background of every
/// desktop on macOS.
pub fn mac_script(path: &str) -> (script: String)
    ensures
        script@ == "tell application \"System Events\" to set picture of every desktop to \""@ + path@
            + "\""@,
{
    let mut script = String::from_str(
        "tell application \"System Events\" to set picture of every desktop to \"",
    );
    script.append(path);
    script.append("\"");
    script
}

/// The script for KDE's desktop shell that makes the file at the address
/// `uri` the background of every desktop.
pub fn kde_script(uri: &str) -> (script: String)
    ensures
        script@ == KDE_SCRIPT_HEAD@ + uri@ + KDE_SCRIPT_TAIL@,
{
    let mut script = String::from_str(KDE_SCRIPT_HEAD);
    script.append(uri);
    script.append(KDE_SCRIPT_TAIL);
    script
}

} // verus!
