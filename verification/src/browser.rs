//! What differs from browser to browser when the bridge is installed: where
//! the host manifest goes, what it is allowed to name, and under which key.
//!
//! Nothing here touches the disk or the registry. [`Browser::install_api`]
//! lays out what an installation consists of; the installer carries it out.

use vstd::prelude::*;
use vstd::string::StringExecFns;

verus! {

/// The operating systems an installation can be laid out for.
#[derive(Clone, Copy, PartialEq, Eq, Debug, Structural)]
pub enum Platform {
    Linux,
    MacOs,
    Windows,
}

/// The browsers that the bridge can be installed for.
#[derive(Clone, Copy, PartialEq, Eq, Debug, Structural)]
pub enum Browser {
    Firefox,
    Chrome,
    /// Offered everywhere but on Windows.
    Chromium,
    Brave,
    /// Offered on Windows only.
    Edge,
}

/// The directory that install paths start from, named by the environment
/// variable that holds it.
#[derive(Clone, Copy, PartialEq, Eq, Debug, Structural)]
pub enum BaseDirectory {
    /// `HOME`.
    Home,
    /// `LOCALAPPDATA`.
    LocalAppData,
}

/// The name under which the host is registered with a browser.
pub const HOST_NAME: &'static str = "yomitan_api";

/// The file name of the bridge executable once installed.
pub const CLIENT_FILE: &'static str = "yomitan-api-rs-client";

/// The file name of the host manifest.
pub const MANIFEST_FILE: &'static str = "yomitan_api.json";

/// The description that the host manifest carries.
pub const HOST_DESCRIPTION: &'static str = "Yomitan API (RS)";

/// The transport that the host manifest declares: framed JSON over standard
/// input and output.
pub const HOST_TRANSPORT: &'static str = "stdio";

/// What a host manifest says, but for the path of the executable, which is
/// known only once the base directory has been looked up.
#[derive(Debug, PartialEq, Eq)]
pub struct HostManifest {
    /// `name`.
    pub name: &'static str,
    /// `description`.
    pub description: &'static str,
    /// `type`.
    pub transport: &'static str,
    /// The key under which the browser wants the allowed callers listed.
    pub allowed_key: &'static str,
    /// The extensions that may call the host.
    pub allowed: Vec<String>,
}

/// The model of a [`HostManifest`].
pub struct HostManifestView {
    pub name: Seq<char>,
    pub description: Seq<char>,
    pub transport: Seq<char>,
    pub allowed_key: Seq<char>,
    pub allowed: Seq<Seq<char>>,
}

impl View for HostManifest {
    type V = HostManifestView;

    open spec fn view(&self) -> HostManifestView {
        HostManifestView {
            name: self.name@,
            description: self.description@,
            transport: self.transport@,
            allowed_key: self.allowed_key@,
            allowed: self.allowed.deep_view(),
        }
    }
}

/// What installing the bridge for one browser consists of: the executable
/// and the manifest are written into `directory` below `base`, and on
/// Windows the manifest's path is entered in the registry.
#[derive(Debug, PartialEq, Eq)]
pub struct InstallPlan {
    /// Where `directory` starts.
    pub base: BaseDirectory,
    /// The directory of both files, relative to `base`.
    pub directory: &'static str,
    /// The file name of the executable.
    pub client_file: &'static str,
    /// The file name of the manifest.
    pub manifest_file: &'static str,
    /// What the manifest says.
    pub manifest: HostManifest,
    /// The key below `HKEY_CURRENT_USER` whose default value is set to the
    /// manifest's path, where the platform has a registry.
    pub registry_path: Option<&'static str>,
}

/// The model of an [`InstallPlan`].
pub struct InstallPlanView {
    pub base: BaseDirectory,
    pub directory: Seq<char>,
    pub client_file: Seq<char>,
    pub manifest_file: Seq<char>,
    pub manifest: HostManifestView,
    pub registry_path: Option<Seq<char>>,
}

impl View for InstallPlan {
    type V = InstallPlanView;

    open spec fn view(&self) -> InstallPlanView {
        InstallPlanView {
            base: self.base,
            directory: self.directory@,
            client_file: self.client_file@,
            manifest_file: self.manifest_file@,
            manifest: self.manifest@,
            registry_path: match self.registry_path {
                Some(path) => Some(path@),
                None => None,
            },
        }
    }
}

/// The characters of each string of a list.
pub open spec fn texts(strings: Seq<&str>) -> Seq<Seq<char>> {
    Seq::new(strings.len(), |i: int| strings[i]@)
}

impl Platform {
    /// Where install paths start on this platform.
    pub open spec fn spec_base(self) -> BaseDirectory {
        match self {
            Platform::Windows => BaseDirectory::LocalAppData,
            _ => BaseDirectory::Home,
        }
    }

    /// Where install paths start on this platform.
    pub fn base(self) -> (base: BaseDirectory)
        ensures
            base == self.spec_base(),
    {
        match self {
            Platform::Windows => BaseDirectory::LocalAppData,
            _ => BaseDirectory::Home,
        }
    }
}

impl Browser {
    /// The browsers offered on `platform`, in the order in which they are
    /// listed for choosing.
    pub open spec fn spec_values(platform: Platform) -> Seq<Browser> {
        match platform {
            Platform::Windows => seq![
                Browser::Firefox,
                Browser::Chrome,
                Browser::Brave,
                Browser::Edge,
            ],
            _ => seq![Browser::Firefox, Browser::Chrome, Browser::Chromium, Browser::Brave],
        }
    }

    /// Whether this browser is offered on `platform`.
    pub open spec fn spec_is_offered_on(self, platform: Platform) -> bool {
        match self {
            Browser::Chromium => platform != Platform::Windows,
            Browser::Edge => platform == Platform::Windows,
            _ => true,
        }
    }

    /// The name by which the browser is listed.
    pub open spec fn spec_name(self) -> Seq<char> {
        match self {
            Browser::Firefox => "firefox"@,
            Browser::Chrome => "chrome"@,
            Browser::Chromium => "chromium"@,
            Browser::Brave => "brave"@,
            Browser::Edge => "edge"@,
        }
    }

    /// The key of the host manifest under which this browser wants the
    /// allowed callers.
    pub open spec fn spec_manifest_key(self) -> Seq<char> {
        match self {
            Browser::Firefox => "allowed_extensions"@,
            _ => "allowed_origins"@,
        }
    }

    /// The identifier of the released extension, as this browser writes it.
    pub open spec fn spec_extension_id(self) -> Seq<char> {
        match self {
            Browser::Firefox => "{6b733b82-9261-47ee-a595-2dda294a4d08}"@,
            _ => "chrome-extension://likgccmbimhjbgkjambclfkhldnlhbnn/"@,
        }
    }

    /// The directory, relative to the platform's base directory, into which
    /// the host is installed; `None` where the browser is not offered.
    pub open spec fn spec_install_directory(self, platform: Platform) -> Option<Seq<char>> {
        if !self.spec_is_offered_on(platform) {
            None
        } else {
            Some(
                match platform {
                    Platform::Windows => "yomitan-api-rs"@,
                    Platform::Linux => match self {
                        Browser::Firefox => ".mozilla/native-messaging-hosts/"@,
                        Browser::Chrome => ".config/google-chrome/NativeMessagingHosts/"@,
                        Browser::Chromium => ".config/chromium/NativeMessagingHosts/"@,
                        _ => ".config/BraveSoftware/Brave-Browser/NativeMessagingHosts/"@,
                    },
                    Platform::MacOs => match self {
                        Browser::Firefox => "Library/Application Support/Mozilla/NativeMessagingHosts/"@,
                        Browser::Chrome => "Library/Application Support/Google/Chrome/NativeMessagingHosts/"@,
                        Browser::Chromium => "Library/Application Support/Chromium/NativeMessagingHosts/"@,
                        _ => "Library/Application Support/BraveSoftware/Brave-Browser/NativeMessagingHosts/"@,
                    },
                },
            )
        }
    }

    /// The registry key, below `HKEY_CURRENT_USER`, under which Windows
    /// looks for this browser's host; `None` for a browser that is not
    /// offered on Windows.
    pub open spec fn spec_registry_path(self) -> Option<Seq<char>> {
        match self {
            Browser::Firefox => Some("SOFTWARE\\Mozilla\\NativeMessagingHosts\\yomitan_api"@),
            Browser::Chrome => Some("SOFTWARE\\Google\\Chrome\\NativeMessagingHosts\\yomitan_api"@),
            Browser::Brave => Some(
                "SOFTWARE\\BraveSoftware\\Brave-Browser\\NativeMessagingHosts\\yomitan_api"@,
            ),
            Browser::Edge => Some("SOFTWARE\\Microsoft\\Edge\\NativeMessagingHosts\\yomitan_api"@),
            Browser::Chromium => None,
        }
    }

    /// The manifest of this browser's host that allows `extension_ids`.
    pub open spec fn spec_manifest(self, extension_ids: Seq<Seq<char>>) -> HostManifestView {
        HostManifestView {
            name: HOST_NAME@,
            description: HOST_DESCRIPTION@,
            transport: HOST_TRANSPORT@,
            allowed_key: self.spec_manifest_key(),
            allowed: extension_ids,
        }
    }

    /// The installation of this browser's host on `platform`, if the browser
    /// is offered there.
    pub open spec fn spec_install_plan(
        self,
        platform: Platform,
        extension_ids: Seq<Seq<char>>,
    ) -> Option<InstallPlanView> {
        match self.spec_install_directory(platform) {
            None => None,
            Some(directory) => Some(
                InstallPlanView {
                    base: platform.spec_base(),
                    directory,
                    client_file: CLIENT_FILE@,
                    manifest_file: MANIFEST_FILE@,
                    manifest: self.spec_manifest(extension_ids),
                    registry_path: if platform == Platform::Windows {
                        self.spec_registry_path()
                    } else {
                        None
                    },
                },
            ),
        }
    }

    /// The browsers offered on `platform`, in the order in which they are
    /// listed for choosing.
    pub fn values(platform: Platform) -> (browsers: Vec<Browser>)
        ensures
            browsers@ == Browser::spec_values(platform),
    {
        let mut browsers: Vec<Browser> = Vec::new();
        browsers.push(Browser::Firefox);
        browsers.push(Browser::Chrome);
        match platform {
            Platform::Windows => {
                browsers.push(Browser::Brave);
                browsers.push(Browser::Edge);
            },
            _ => {
                browsers.push(Browser::Chromium);
                browsers.push(Browser::Brave);
            },
        }
        assert(browsers@ =~= Browser::spec_values(platform));
        browsers
    }

    /// The browser that the number `choice` picks from the list of
    /// [`Browser::values`], counted from one.
    pub fn from_choice(choice: usize, platform: Platform) -> (browser: Option<Browser>)
        ensures
            1 <= choice <= Browser::spec_values(platform).len() ==> browser == Some(
                Browser::spec_values(platform)[choice - 1],
            ),
            !(1 <= choice <= Browser::spec_values(platform).len()) ==> browser is None,
    {
        let browsers = Browser::values(platform);
        if choice >= 1 && choice <= browsers.len() {
            Some(browsers[choice - 1])
        } else {
            None
        }
    }

    /// Whether this browser is offered on `platform`.
    pub fn is_offered_on(&self, platform: Platform) -> (offered: bool)
        ensures
            offered == self.spec_is_offered_on(platform),
            offered == Browser::spec_values(platform).contains(*self),
    {
        let offered = match self {
            Browser::Chromium => !matches!(platform, Platform::Windows),
            Browser::Edge => matches!(platform, Platform::Windows),
            _ => true,
        };
        proof {
            let listed = Browser::spec_values(platform);
            if offered {
                assert(listed[0] == *self || listed[1] == *self || listed[2] == *self || listed[3]
                    == *self);
            } else {
                assert forall|i: int| 0 <= i < listed.len() implies listed[i] != *self by {}
            }
        }
        offered
    }

    /// The name by which the browser is listed.
    pub fn name(&self) -> (name: &'static str)
        ensures
            name@ == self.spec_name(),
    {
        match self {
            Browser::Firefox => "firefox",
            Browser::Chrome => "chrome",
            Browser::Chromium => "chromium",
            Browser::Brave => "brave",
            Browser::Edge => "edge",
        }
    }

    /// The key of the host manifest under which this browser wants the
    /// allowed callers.
    pub fn manifest_key(&self) -> (key: &'static str)
        ensures
            key@ == self.spec_manifest_key(),
    {
        match self {
            Browser::Firefox => "allowed_extensions",
            _ => "allowed_origins",
        }
    }

    /// The identifier of the released extension, as this browser writes it.
    pub fn extension_id(&self) -> (id: &'static str)
        ensures
            id@ == self.spec_extension_id(),
    {
        match self {
            Browser::Firefox => "{6b733b82-9261-47ee-a595-2dda294a4d08}",
            _ => "chrome-extension://likgccmbimhjbgkjambclfkhldnlhbnn/",
        }
    }

    /// The directory, relative to the platform's base directory, into which
    /// the host is installed; `None` where the browser is not offered.
    pub fn install_directory(&self, platform: Platform) -> (directory: Option<&'static str>)
        ensures
            match directory {
                Some(path) => self.spec_install_directory(platform) == Some(path@),
                None => self.spec_install_directory(platform) is None,
            },
    {
        if !self.is_offered_on(platform) {
            return None;
        }
        Some(
            match platform {
                Platform::Windows => "yomitan-api-rs",
                Platform::Linux => match self {
                    Browser::Firefox => ".mozilla/native-messaging-hosts/",
                    Browser::Chrome => ".config/google-chrome/NativeMessagingHosts/",
                    Browser::Chromium => ".config/chromium/NativeMessagingHosts/",
                    _ => ".config/BraveSoftware/Brave-Browser/NativeMessagingHosts/",
                },
                Platform::MacOs => match self {
                    Browser::Firefox => "Library/Application Support/Mozilla/NativeMessagingHosts/",
                    Browser::Chrome => "Library/Application Support/Google/Chrome/NativeMessagingHosts/",
                    Browser::Chromium => "Library/Application Support/Chromium/NativeMessagingHosts/",
                    _ => "Library/Application Support/BraveSoftware/Brave-Browser/NativeMessagingHosts/",
                },
            },
        )
    }

    /// The registry key, below `HKEY_CURRENT_USER`, under which Windows
    /// looks for this browser's host; `None` for a browser that is not
    /// offered on Windows.
    pub fn registry_path(&self) -> (path: Option<&'static str>)
        ensures
            match path {
                Some(path) => self.spec_registry_path() == Some(path@),
                None => self.spec_registry_path() is None,
            },
    {
        match self {
            Browser::Firefox => Some("SOFTWARE\\Mozilla\\NativeMessagingHosts\\yomitan_api"),
            Browser::Chrome => Some("SOFTWARE\\Google\\Chrome\\NativeMessagingHosts\\yomitan_api"),
            Browser::Brave => Some(
                "SOFTWARE\\BraveSoftware\\Brave-Browser\\NativeMessagingHosts\\yomitan_api",
            ),
            Browser::Edge => Some("SOFTWARE\\Microsoft\\Edge\\NativeMessagingHosts\\yomitan_api"),
            Browser::Chromium => None,
        }
    }

    /// The extensions that the host is to allow: those given by hand, then
    /// the released one.
    pub fn allowed_extensions(&self, additional: &[&str]) -> (ids: Vec<String>)
        ensures
            ids.deep_view() == texts(additional@).push(self.spec_extension_id()),
    {
        let mut ids = copy_texts(additional);
        let ghost before = ids.deep_view();
        ids.push(String::from_str(self.extension_id()));
        assert(ids.deep_view() =~= before.push(self.spec_extension_id()));
        ids
    }

    /// Lays out the installation of this browser's host on `platform`, with
    /// `extension_ids` as the callers that the manifest allows.
    ///
    /// Returns `None` where the browser is not offered on the platform.
    pub fn install_api(self, platform: Platform, extension_ids: &[&str]) -> (plan: Option<
        InstallPlan,
    >)
        ensures
            match plan {
                Some(plan) => self.spec_install_plan(platform, texts(extension_ids@)) == Some(
                    plan@,
                ),
                None => self.spec_install_plan(platform, texts(extension_ids@)) is None,
            },
    {
        let directory = match self.install_directory(platform) {
            Some(directory) => directory,
            None => { return None; },
        };
        let manifest = HostManifest {
            name: HOST_NAME,
            description: HOST_DESCRIPTION,
            transport: HOST_TRANSPORT,
            allowed_key: self.manifest_key(),
            allowed: copy_texts(extension_ids),
        };
        let registry_path = match platform {
            Platform::Windows => self.registry_path(),
            _ => None,
        };
        Some(
            InstallPlan {
                base: platform.base(),
                directory,
                client_file: CLIENT_FILE,
                manifest_file: MANIFEST_FILE,
                manifest,
                registry_path,
            },
        )
    }
}

/// Owned copies of a list of strings.
fn copy_texts(strings: &[&str]) -> (copies: Vec<String>)
    ensures
        copies.deep_view() == texts(strings@),
{
    let mut copies: Vec<String> = Vec::new();
    let mut i: usize = 0;
    while i < strings.len()
        invariant
            i <= strings@.len(),
            copies.deep_view() == texts(strings@.take(i as int)),
        decreases strings@.len() - i,
    {
        let ghost before = copies.deep_view();
        copies.push(String::from_str(strings[i]));
        assert(copies.deep_view() =~= before.push(strings@[i as int]@));
        assert(texts(strings@.take(i + 1)) =~= texts(strings@.take(i as int)).push(
            strings@[i as int]@,
        ));
        i += 1;
    }
    assert(strings@.take(i as int) =~= strings@);
    copies
}

} // verus!
