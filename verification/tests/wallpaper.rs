use satpaper::wallpaper::{
    choose_backend, file_uri, kde_script, mac_script, picture_key, same, user_command_line, windows_script,
    Backend, Unsupported,
};

#[test]
fn backend_by_system_and_desktop() {
    assert_eq!(choose_backend("linux", false, Some("GNOME")), Ok(Backend::Gnome));
    assert_eq!(choose_backend("linux", false, Some("ubuntu:GNOME")), Ok(Backend::Gnome));
    assert_eq!(choose_backend("linux", false, Some("KDE")), Ok(Backend::Kde));
    assert_eq!(choose_backend("windows", false, None), Ok(Backend::Windows));
    assert_eq!(choose_backend("macos", false, Some("KDE")), Ok(Backend::MacOs));
}

#[test]
fn user_command_counts_on_linux_only() {
    assert_eq!(choose_backend("linux", true, None), Ok(Backend::UserCommand));
    assert_eq!(choose_backend("linux", true, Some("KDE")), Ok(Backend::UserCommand));
    assert_eq!(choose_backend("windows", true, None), Ok(Backend::Windows));
    assert_eq!(choose_backend("macos", true, None), Ok(Backend::MacOs));
}

#[test]
fn what_is_not_supported() {
    assert_eq!(choose_backend("linux", false, None), Err(Unsupported::NoDesktop));
    assert_eq!(choose_backend("linux", false, Some("XFCE")), Err(Unsupported::Desktop));
    assert_eq!(choose_backend("linux", false, Some("gnome")), Err(Unsupported::Desktop));
    assert_eq!(choose_backend("freebsd", false, Some("KDE")), Err(Unsupported::Os));
    assert_eq!(choose_backend("freebsd", true, None), Err(Unsupported::Os));
    assert_eq!(choose_backend("", false, None), Err(Unsupported::Os));
}

#[test]
fn gnome_setting_by_colour_scheme() {
    assert_eq!(picture_key("'prefer-dark'"), "picture-uri-dark");
    assert_eq!(picture_key("'default'"), "picture-uri");
    assert_eq!(picture_key("prefer-dark"), "picture-uri");
    assert_eq!(picture_key(""), "picture-uri");
}

#[test]
fn words_of_the_commands() {
    assert_eq!(file_uri("/home/me/satpaper_latest.png"), "file:///home/me/satpaper_latest.png");
    assert_eq!(user_command_line("feh --bg-fill", "/tmp/a.png"), "feh --bg-fill file:///tmp/a.png");
    assert_eq!(user_command_line("", ""), " file://");
}

#[test]
fn string_comparison() {
    assert!(same("", ""));
    assert!(same("KDE", "KDE"));
    assert!(!same("KDE", "KDE "));
    assert!(!same("KDE", "KDF"));
    assert!(same("grüße", "grüße"));
    assert!(!same("grüße", "grusse"));
}

#[test]
fn scripts_hold_the_path() {
    let path = "C:\\Users\\me\\satpaper_latest.png";
    let windows = format!(
        r#"
$code = @'
using System.Runtime.InteropServices;
namespace Win32 {{
    public class Wallpaper {{
        [DllImport("user32.dll", CharSet=CharSet.Auto)]
        static extern int SystemParametersInfo (int uAction, int uParam, string lpvParam, int fuWinIni);

        public static void SetWallpaper(string thePath) {{
            SystemParametersInfo(20, 0, thePath, 3);
        }}
    }}
}}
'@

add-type $code

# Apply the Change on the system
[Win32.Wallpaper]::SetWallpaper("{path}")"#
    );
    assert_eq!(windows_script(path), windows);

    let path = "/Users/me/satpaper_latest.png";
    let mac = format!(r#"tell application "System Events" to set picture of every desktop to "{path}""#);
    assert_eq!(mac_script(path), mac);

    let kde = format!(
        r#"
                var allDesktops = desktops();
                for (i=0;i<allDesktops.length;i++) {{
                    d = allDesktops[i];
                    d.wallpaperPlugin = "org.kde.image";
                    d.currentConfigGroup = Array("Wallpaper",
                                                 "org.kde.image",
                                                 "General");
                    // reset the current wallpaper, otherwise it is not reloaded
                    d.writeConfig("Image", null);
                    d.writeConfig("Image", "file://{path}");
                }}
                "#
    );
    assert_eq!(kde_script(&file_uri(path)), kde);
}
