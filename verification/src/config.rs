//! Configuration values: the site-level settings a configuration file
//! carries, the home-page hero settings, and the build settings that the
//! command line, environment and file cascade into. Reading and merging
//! the sources is the calling layer's concern; the types and their
//! defaults are fixed here.
use vstd::prelude::*;
use vstd::string::StringExecFns;

verus! {

/// A labelled link, as shown on the home page's action buttons.
#[derive(Debug)]
pub struct Link {
    pub text: String,
    pub link: String,
}

impl Default for Link {
    /// An empty label pointing nowhere.
    fn default() -> (r: Link)
        ensures
            r.text@.len() == 0,
            r.link@.len() == 0,
    {
        Link { text: String::new(), link: String::new() }
    }
}

/// One feature tile of the home page.
#[derive(Debug)]
pub struct Feature {
    pub title: String,
    pub description: String,
}

impl Default for Feature {
    /// An empty title with an empty description.
    fn default() -> (r: Feature)
        ensures
            r.title@.len() == 0,
            r.description@.len() == 0,
    {
        Feature { title: String::new(), description: String::new() }
    }
}

/// Site-wide presentation settings.
#[derive(Debug)]
pub struct SiteConfig {
    pub title: Option<String>,
    pub tagline: Option<String>,
    pub secondary_tagline: Option<String>,
    pub small_tag: Option<String>,
}

impl Default for SiteConfig {
    /// The conventional site title and tagline, nothing else.
    fn default() -> (r: SiteConfig)
        ensures
            (match r.title {
                Some(t) => t@ == "Zap"@,
                None => false,
            }),
            r.tagline is Some,
            r.secondary_tagline is None,
            r.small_tag is None,
    {
        SiteConfig {
            title: Some(String::from_str("Zap")),
            tagline: Some(
                String::from_str(
                    "A modern static site generator that creates beautiful project websites with minimal configuration",
                ),
            ),
            secondary_tagline: None,
            small_tag: None,
        }
    }
}

/// Home-page hero settings.
#[derive(Debug)]
pub struct HomeConfig {
    pub hero: bool,
    pub primary_action: Option<Link>,
    pub secondary_action: Option<Link>,
    pub features: Vec<Feature>,
}

impl Default for HomeConfig {
    /// Hero mode on, no actions, no feature tiles.
    fn default() -> (r: HomeConfig)
        ensures
            r.hero == true,
            r.primary_action is None,
            r.secondary_action is None,
            r.features@.len() == 0,
    {
        HomeConfig { hero: true, primary_action: None, secondary_action: None, features: Vec::new() }
    }
}

/// What a configuration file carries: optional site and home sections.
#[derive(Debug)]
pub struct Config {
    pub site: Option<SiteConfig>,
    pub home: Option<HomeConfig>,
}

impl Default for Config {
    /// No section present.
    fn default() -> (r: Config)
        ensures
            r.site is None,
            r.home is None,
    {
        Config { site: None, home: None }
    }
}

/// The build settings the command line, environment, file and defaults
/// cascade into.
#[derive(Debug)]
pub struct BuildConfig {
    /// Source directory containing markdown files.
    pub source: String,
    /// Output directory for the generated site.
    pub output: String,
    /// Theme directory.
    pub theme: String,
    /// Configuration file path.
    pub config: String,
    /// Host for the development server.
    pub host: String,
    /// Port for the development server.
    pub port: u16,
    /// Whether to open the browser automatically.
    pub open: bool,
}

impl Default for BuildConfig {
    /// The conventional directories, configuration file and local address.
    fn default() -> (r: BuildConfig)
        ensures
            r.source@ == "./site"@,
            r.output@ == "./out"@,
            r.theme@ == "./theme"@,
            r.config@ == "./zap.toml"@,
            r.host@ == "127.0.0.1"@,
            r.port == 3000,
            r.open == false,
    {
        BuildConfig {
            source: String::from_str("./site"),
            output: String::from_str("./out"),
            theme: String::from_str("./theme"),
            config: String::from_str("./zap.toml"),
            host: String::from_str("127.0.0.1"),
            port: 3000,
            open: false,
        }
    }
}

/// The complete configuration: build settings plus the file's sections.
#[derive(Debug)]
pub struct ZapConfig {
    pub build: BuildConfig,
    pub site: Config,
}

impl Default for ZapConfig {
    /// Default build settings over an empty configuration file.
    fn default() -> (r: ZapConfig)
        ensures
            r.build.source@ == "./site"@,
            r.build.output@ == "./out"@,
            r.build.theme@ == "./theme"@,
            r.build.config@ == "./zap.toml"@,
            r.build.host@ == "127.0.0.1"@,
            r.build.port == 3000,
            r.build.open == false,
            r.site.site is None,
            r.site.home is None,
    {
        ZapConfig { build: BuildConfig::default(), site: Config::default() }
    }
}

impl ZapConfig {
    /// The configuration file's sections, for the site core.
    pub fn site_config(&self) -> (r: &Config)
        ensures
            r == &self.site,
    {
        &self.site
    }

    /// The build settings.
    pub fn build_config(&self) -> (r: &BuildConfig)
        ensures
            r == &self.build,
    {
        &self.build
    }
}

} // verus!
