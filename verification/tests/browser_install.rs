use yomitan_api::browser::{
    BaseDirectory, Browser, HostManifest, InstallPlan, Platform, CLIENT_FILE, HOST_DESCRIPTION,
    HOST_NAME, HOST_TRANSPORT, MANIFEST_FILE,
};

const ALL_BROWSERS: [Browser; 5] =
    [Browser::Firefox, Browser::Chrome, Browser::Chromium, Browser::Brave, Browser::Edge];
const ALL_PLATFORMS: [Platform; 3] = [Platform::Linux, Platform::MacOs, Platform::Windows];

#[test]
fn names() {
    assert_eq!(Browser::Firefox.name(), "firefox");
    assert_eq!(Browser::Chrome.name(), "chrome");
    assert_eq!(Browser::Chromium.name(), "chromium");
    assert_eq!(Browser::Brave.name(), "brave");
    assert_eq!(Browser::Edge.name(), "edge");
}

#[test]
fn manifest_keys() {
    assert_eq!(Browser::Firefox.manifest_key(), "allowed_extensions");
    for browser in [Browser::Chrome, Browser::Chromium, Browser::Brave, Browser::Edge] {
        assert_eq!(browser.manifest_key(), "allowed_origins");
    }
}

#[test]
fn extension_ids() {
    assert_eq!(Browser::Firefox.extension_id(), "{6b733b82-9261-47ee-a595-2dda294a4d08}");
    for browser in [Browser::Chrome, Browser::Chromium, Browser::Brave, Browser::Edge] {
        assert_eq!(
            browser.extension_id(),
            "chrome-extension://likgccmbimhjbgkjambclfkhldnlhbnn/"
        );
    }
}

#[test]
fn registry_paths() {
    assert_eq!(
        Browser::Firefox.registry_path(),
        Some("SOFTWARE\\Mozilla\\NativeMessagingHosts\\yomitan_api")
    );
    assert_eq!(
        Browser::Chrome.registry_path(),
        Some("SOFTWARE\\Google\\Chrome\\NativeMessagingHosts\\yomitan_api")
    );
    assert_eq!(
        Browser::Brave.registry_path(),
        Some("SOFTWARE\\BraveSoftware\\Brave-Browser\\NativeMessagingHosts\\yomitan_api")
    );
    assert_eq!(
        Browser::Edge.registry_path(),
        Some("SOFTWARE\\Microsoft\\Edge\\NativeMessagingHosts\\yomitan_api")
    );
    assert_eq!(Browser::Chromium.registry_path(), None);
}

#[test]
fn browsers_offered_on_each_platform() {
    let unix = vec![Browser::Firefox, Browser::Chrome, Browser::Chromium, Browser::Brave];
    assert_eq!(Browser::values(Platform::Linux), unix);
    assert_eq!(Browser::values(Platform::MacOs), unix);
    assert_eq!(
        Browser::values(Platform::Windows),
        vec![Browser::Firefox, Browser::Chrome, Browser::Brave, Browser::Edge]
    );
    for platform in ALL_PLATFORMS {
        for browser in ALL_BROWSERS {
            assert_eq!(
                browser.is_offered_on(platform),
                Browser::values(platform).contains(&browser)
            );
        }
    }
}

#[test]
fn choice_counts_from_one() {
    assert_eq!(Browser::from_choice(0, Platform::Linux), None);
    assert_eq!(Browser::from_choice(1, Platform::Linux), Some(Browser::Firefox));
    assert_eq!(Browser::from_choice(2, Platform::Linux), Some(Browser::Chrome));
    assert_eq!(Browser::from_choice(3, Platform::Linux), Some(Browser::Chromium));
    assert_eq!(Browser::from_choice(4, Platform::Linux), Some(Browser::Brave));
    assert_eq!(Browser::from_choice(5, Platform::Linux), None);
    assert_eq!(Browser::from_choice(3, Platform::Windows), Some(Browser::Brave));
    assert_eq!(Browser::from_choice(4, Platform::Windows), Some(Browser::Edge));
    assert_eq!(Browser::from_choice(5, Platform::Windows), None);
    assert_eq!(Browser::from_choice(usize::MAX, Platform::MacOs), None);
}

#[test]
fn base_directories() {
    assert_eq!(Platform::Linux.base(), BaseDirectory::Home);
    assert_eq!(Platform::MacOs.base(), BaseDirectory::Home);
    assert_eq!(Platform::Windows.base(), BaseDirectory::LocalAppData);
}

#[test]
fn install_directories_on_linux() {
    let linux = Platform::Linux;
    assert_eq!(
        Browser::Firefox.install_directory(linux),
        Some(".mozilla/native-messaging-hosts/")
    );
    assert_eq!(
        Browser::Chrome.install_directory(linux),
        Some(".config/google-chrome/NativeMessagingHosts/")
    );
    assert_eq!(
        Browser::Chromium.install_directory(linux),
        Some(".config/chromium/NativeMessagingHosts/")
    );
    assert_eq!(
        Browser::Brave.install_directory(linux),
        Some(".config/BraveSoftware/Brave-Browser/NativeMessagingHosts/")
    );
    assert_eq!(Browser::Edge.install_directory(linux), None);
}

#[test]
fn install_directories_on_macos() {
    let macos = Platform::MacOs;
    assert_eq!(
        Browser::Firefox.install_directory(macos),
        Some("Library/Application Support/Mozilla/NativeMessagingHosts/")
    );
    assert_eq!(
        Browser::Chrome.install_directory(macos),
        Some("Library/Application Support/Google/Chrome/NativeMessagingHosts/")
    );
    assert_eq!(
        Browser::Chromium.install_directory(macos),
        Some("Library/Application Support/Chromium/NativeMessagingHosts/")
    );
    assert_eq!(
        Browser::Brave.install_directory(macos),
        Some("Library/Application Support/BraveSoftware/Brave-Browser/NativeMessagingHosts/")
    );
    assert_eq!(Browser::Edge.install_directory(macos), None);
}

#[test]
fn install_directories_on_windows() {
    for browser in [Browser::Firefox, Browser::Chrome, Browser::Brave, Browser::Edge] {
        assert_eq!(browser.install_directory(Platform::Windows), Some("yomitan-api-rs"));
    }
    assert_eq!(Browser::Chromium.install_directory(Platform::Windows), None);
}

#[test]
fn allowed_extensions_end_with_the_released_one() {
    assert_eq!(
        Browser::Firefox.allowed_extensions(&[]),
        vec!["{6b733b82-9261-47ee-a595-2dda294a4d08}".to_string()]
    );
    assert_eq!(
        Browser::Chrome.allowed_extensions(&["chrome-extension://dev/", "chrome-extension://x/"]),
        vec![
            "chrome-extension://dev/".to_string(),
            "chrome-extension://x/".to_string(),
            "chrome-extension://likgccmbimhjbgkjambclfkhldnlhbnn/".to_string(),
        ]
    );
}

#[test]
fn install_plan_for_firefox_on_linux() {
    let plan = Browser::Firefox.install_api(Platform::Linux, &["{dev}", "{released}"]);
    assert_eq!(
        plan,
        Some(InstallPlan {
            base: BaseDirectory::Home,
            directory: ".mozilla/native-messaging-hosts/",
            client_file: "yomitan-api-rs-client",
            manifest_file: "yomitan_api.json",
            manifest: HostManifest {
                name: "yomitan_api",
                description: "Yomitan API (RS)",
                transport: "stdio",
                allowed_key: "allowed_extensions",
                allowed: vec!["{dev}".to_string(), "{released}".to_string()],
            },
            registry_path: None,
        })
    );
}

#[test]
fn install_plan_for_edge_on_windows() {
    let plan = Browser::Edge.install_api(Platform::Windows, &["chrome-extension://id/"]);
    assert_eq!(
        plan,
        Some(InstallPlan {
            base: BaseDirectory::LocalAppData,
            directory: "yomitan-api-rs",
            client_file: CLIENT_FILE,
            manifest_file: MANIFEST_FILE,
            manifest: HostManifest {
                name: HOST_NAME,
                description: HOST_DESCRIPTION,
                transport: HOST_TRANSPORT,
                allowed_key: "allowed_origins",
                allowed: vec!["chrome-extension://id/".to_string()],
            },
            registry_path: Some("SOFTWARE\\Microsoft\\Edge\\NativeMessagingHosts\\yomitan_api"),
        })
    );
}

#[test]
fn install_plan_with_no_extension_allows_none() {
    let plan = Browser::Brave.install_api(Platform::MacOs, &[]).unwrap();
    assert!(plan.manifest.allowed.is_empty());
    assert_eq!(plan.registry_path, None);
    assert_eq!(
        plan.directory,
        "Library/Application Support/BraveSoftware/Brave-Browser/NativeMessagingHosts/"
    );
}

#[test]
fn no_plan_where_the_browser_is_not_offered() {
    assert_eq!(Browser::Edge.install_api(Platform::Linux, &["id"]), None);
    assert_eq!(Browser::Edge.install_api(Platform::MacOs, &["id"]), None);
    assert_eq!(Browser::Chromium.install_api(Platform::Windows, &["id"]), None);
}

#[test]
fn registry_only_on_windows() {
    for platform in ALL_PLATFORMS {
        for browser in Browser::values(platform) {
            let plan = browser.install_api(platform, &[browser.extension_id()]).unwrap();
            assert_eq!(plan.base, platform.base());
            assert_eq!(plan.manifest.allowed_key, browser.manifest_key());
            assert_eq!(plan.manifest.allowed, vec![browser.extension_id().to_string()]);
            if platform == Platform::Windows {
                assert_eq!(plan.registry_path, browser.registry_path());
                assert!(plan.registry_path.is_some());
            } else {
                assert_eq!(plan.registry_path, None);
            }
        }
    }
}
