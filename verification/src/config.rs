//! The configuration: what it holds, how it starts, and how an older one is
//! brought up to date.
use vstd::prelude::*;

use crate::json::{Json, JsonModel};
use crate::string_map::StringMap;
use crate::text;

verus! {

/// The prefix of the branches that are made.
pub fn default_git_branch_prefix() -> (r: String)
    ensures
        r@ == "vk"@,
{
    "vk".to_owned()
}

/// Whether pull requests are described by default.
pub fn default_pr_auto_description_enabled() -> (r: bool)
    ensures
        r,
{
    true
}

/// Whether commits are reminded of by default.
pub fn default_commit_reminder_enabled() -> (r: bool)
    ensures
        r,
{
    true
}

/// Whether the relay is used by default.
pub fn default_relay_enabled() -> (r: bool)
    ensures
        r,
{
    true
}

/// How a message is sent.
#[derive(Clone, Copy, Debug, PartialEq, Eq, Structural)]
pub enum SendMessageShortcut {
    ModifierEnter,
    Enter,
}

impl Default for SendMessageShortcut {
    fn default() -> (r: SendMessageShortcut)
        ensures
            r == SendMessageShortcut::ModifierEnter,
    {
        SendMessageShortcut::ModifierEnter
    }
}

/// A Linear account.
#[derive(Debug)]
pub struct LinearAccount {
    /// The API token. It must not leave the machine: see [`Config::redacted`].
    pub token: Option<String>,
    /// What the workspace of the account is called.
    pub workspace_name: Option<String>,
    /// The team whose workflow states the map leads to.
    pub team_id: Option<String>,
    /// From columns, by the rendering of their identifiers, to workflow states.
    pub state_map: StringMap<String>,
    /// The board that issues are imported to; none where nothing is imported.
    pub import_target_project_id: Option<String>,
    /// Issues with this label are imported too.
    pub import_label: Option<String>,
}

/// What a [`LinearAccount`] holds.
#[verifier::ext_equal]
pub struct LinearAccountModel {
    pub token: Option<Seq<char>>,
    pub workspace_name: Option<Seq<char>>,
    pub team_id: Option<Seq<char>>,
    pub state_map: Map<Seq<char>, Seq<char>>,
    pub import_target_project_id: Option<Seq<char>>,
    pub import_label: Option<Seq<char>>,
}

impl View for LinearAccount {
    type V = LinearAccountModel;

    open spec fn view(&self) -> LinearAccountModel {
        LinearAccountModel {
            token: text::opt_text(self.token),
            workspace_name: text::opt_text(self.workspace_name),
            team_id: text::opt_text(self.team_id),
            state_map: self.state_map@,
            import_target_project_id: text::opt_text(self.import_target_project_id),
            import_label: text::opt_text(self.import_label),
        }
    }
}

impl Clone for LinearAccount {
    fn clone(&self) -> (r: LinearAccount)
        ensures
            r@ == self@,
    {
        LinearAccount {
            token: text::copy_option(&self.token),
            workspace_name: text::copy_option(&self.workspace_name),
            team_id: text::copy_option(&self.team_id),
            state_map: self.state_map.duplicate(),
            import_target_project_id: text::copy_option(&self.import_target_project_id),
            import_label: text::copy_option(&self.import_label),
        }
    }
}

/// The Linear accounts, by account key.
#[derive(Debug)]
pub struct LinearConfig {
    pub accounts: StringMap<LinearAccount>,
}

/// What a [`LinearConfig`] holds.
#[verifier::ext_equal]
pub struct LinearConfigModel {
    pub accounts: Map<Seq<char>, LinearAccountModel>,
}

impl View for LinearConfig {
    type V = LinearConfigModel;

    open spec fn view(&self) -> LinearConfigModel {
        LinearConfigModel {
            accounts: self.accounts@,
        }
    }
}

impl Clone for LinearConfig {
    fn clone(&self) -> (r: LinearConfig)
        ensures
            r@ == self@,
    {
        LinearConfig {
            accounts: self.accounts.duplicate(),
        }
    }
}

/// The configuration.
#[derive(Debug)]
pub struct Config {
    pub config_version: String,
    /// A setting that is carried as it is; `null` stands for its default.
    pub theme: Json,
    /// A setting that is carried as it is; `null` stands for its default.
    pub executor_profile: Json,
    pub disclaimer_acknowledged: bool,
    pub onboarding_acknowledged: bool,
    pub remote_onboarding_acknowledged: bool,
    /// A setting that is carried as it is; `null` stands for its default.
    pub notifications: Json,
    /// A setting that is carried as it is; `null` stands for its default.
    pub editor: Json,
    /// A setting that is carried as it is; `null` stands for its default.
    pub github: Json,
    pub analytics_enabled: bool,
    pub workspace_dir: Option<String>,
    pub last_app_version: Option<String>,
    pub show_release_notes: bool,
    /// A setting that is carried as it is; `null` stands for its default.
    pub language: Json,
    pub git_branch_prefix: String,
    /// A setting that is carried as it is; `null` stands for its default.
    pub showcases: Json,
    pub pr_auto_description_enabled: bool,
    pub pr_auto_description_prompt: Option<String>,
    pub commit_reminder_enabled: bool,
    pub commit_reminder_prompt: Option<String>,
    pub send_message_shortcut: SendMessageShortcut,
    pub relay_enabled: bool,
    pub host_nickname: Option<String>,
    pub linear: LinearConfig,
}

/// What a [`Config`] holds.
#[verifier::ext_equal]
pub struct ConfigModel {
    pub config_version: Seq<char>,
    pub theme: JsonModel,
    pub executor_profile: JsonModel,
    pub disclaimer_acknowledged: bool,
    pub onboarding_acknowledged: bool,
    pub remote_onboarding_acknowledged: bool,
    pub notifications: JsonModel,
    pub editor: JsonModel,
    pub github: JsonModel,
    pub analytics_enabled: bool,
    pub workspace_dir: Option<Seq<char>>,
    pub last_app_version: Option<Seq<char>>,
    pub show_release_notes: bool,
    pub language: JsonModel,
    pub git_branch_prefix: Seq<char>,
    pub showcases: JsonModel,
    pub pr_auto_description_enabled: bool,
    pub pr_auto_description_prompt: Option<Seq<char>>,
    pub commit_reminder_enabled: bool,
    pub commit_reminder_prompt: Option<Seq<char>>,
    pub send_message_shortcut: SendMessageShortcut,
    pub relay_enabled: bool,
    pub host_nickname: Option<Seq<char>>,
    pub linear: LinearConfigModel,
}

impl View for Config {
    type V = ConfigModel;

    open spec fn view(&self) -> ConfigModel {
        ConfigModel {
            config_version: self.config_version@,
            theme: self.theme@,
            executor_profile: self.executor_profile@,
            disclaimer_acknowledged: self.disclaimer_acknowledged,
            onboarding_acknowledged: self.onboarding_acknowledged,
            remote_onboarding_acknowledged: self.remote_onboarding_acknowledged,
            notifications: self.notifications@,
            editor: self.editor@,
            github: self.github@,
            analytics_enabled: self.analytics_enabled,
            workspace_dir: text::opt_text(self.workspace_dir),
            last_app_version: text::opt_text(self.last_app_version),
            show_release_notes: self.show_release_notes,
            language: self.language@,
            git_branch_prefix: self.git_branch_prefix@,
            showcases: self.showcases@,
            pr_auto_description_enabled: self.pr_auto_description_enabled,
            pr_auto_description_prompt: text::opt_text(self.pr_auto_description_prompt),
            commit_reminder_enabled: self.commit_reminder_enabled,
            commit_reminder_prompt: text::opt_text(self.commit_reminder_prompt),
            send_message_shortcut: self.send_message_shortcut,
            relay_enabled: self.relay_enabled,
            host_nickname: text::opt_text(self.host_nickname),
            linear: self.linear@,
        }
    }
}

impl Clone for Config {
    fn clone(&self) -> (r: Config)
        ensures
            r@ == self@,
    {
        Config {
            config_version: self.config_version.clone(),
            theme: self.theme.copy(),
            executor_profile: self.executor_profile.copy(),
            disclaimer_acknowledged: self.disclaimer_acknowledged,
            onboarding_acknowledged: self.onboarding_acknowledged,
            remote_onboarding_acknowledged: self.remote_onboarding_acknowledged,
            notifications: self.notifications.copy(),
            editor: self.editor.copy(),
            github: self.github.copy(),
            analytics_enabled: self.analytics_enabled,
            workspace_dir: text::copy_option(&self.workspace_dir),
            last_app_version: text::copy_option(&self.last_app_version),
            show_release_notes: self.show_release_notes,
            language: self.language.copy(),
            git_branch_prefix: self.git_branch_prefix.clone(),
            showcases: self.showcases.copy(),
            pr_auto_description_enabled: self.pr_auto_description_enabled,
            pr_auto_description_prompt: text::copy_option(&self.pr_auto_description_prompt),
            commit_reminder_enabled: self.commit_reminder_enabled,
            commit_reminder_prompt: text::copy_option(&self.commit_reminder_prompt),
            send_message_shortcut: self.send_message_shortcut,
            relay_enabled: self.relay_enabled,
            host_nickname: text::copy_option(&self.host_nickname),
            linear: self.linear.clone(),
        }
    }
}

/// The configuration before there were Linear accounts.
#[derive(Debug)]
pub struct ConfigV7 {
    pub theme: Json,
    pub executor_profile: Json,
    pub disclaimer_acknowledged: bool,
    pub onboarding_acknowledged: bool,
    pub notifications: Json,
    pub editor: Json,
    pub github: Json,
    /// `None` where the user was not asked.
    pub analytics_enabled: Option<bool>,
    pub workspace_dir: Option<String>,
    pub last_app_version: Option<String>,
    pub show_release_notes: bool,
    pub language: Json,
    pub git_branch_prefix: String,
    pub showcases: Json,
}

/// What a [`ConfigV7`] holds.
#[verifier::ext_equal]
pub struct ConfigV7Model {
    pub theme: JsonModel,
    pub executor_profile: JsonModel,
    pub disclaimer_acknowledged: bool,
    pub onboarding_acknowledged: bool,
    pub notifications: JsonModel,
    pub editor: JsonModel,
    pub github: JsonModel,
    pub analytics_enabled: Option<bool>,
    pub workspace_dir: Option<Seq<char>>,
    pub last_app_version: Option<Seq<char>>,
    pub show_release_notes: bool,
    pub language: JsonModel,
    pub git_branch_prefix: Seq<char>,
    pub showcases: JsonModel,
}

impl View for ConfigV7 {
    type V = ConfigV7Model;

    open spec fn view(&self) -> ConfigV7Model {
        ConfigV7Model {
            theme: self.theme@,
            executor_profile: self.executor_profile@,
            disclaimer_acknowledged: self.disclaimer_acknowledged,
            onboarding_acknowledged: self.onboarding_acknowledged,
            notifications: self.notifications@,
            editor: self.editor@,
            github: self.github@,
            analytics_enabled: self.analytics_enabled,
            workspace_dir: text::opt_text(self.workspace_dir),
            last_app_version: text::opt_text(self.last_app_version),
            show_release_notes: self.show_release_notes,
            language: self.language@,
            git_branch_prefix: self.git_branch_prefix@,
            showcases: self.showcases@,
        }
    }
}

// ---------------------------------------------------------------------------
// Redaction
// ---------------------------------------------------------------------------
/// An account without its token.
pub open spec fn without_token(a: LinearAccountModel) -> LinearAccountModel {
    LinearAccountModel { token: None, ..a }
}

/// Accounts without their tokens.
pub open spec fn without_tokens(
    accounts: Map<Seq<char>, LinearAccountModel>,
) -> Map<Seq<char>, LinearAccountModel> {
    accounts.map_values(|a: LinearAccountModel| without_token(a))
}

/// A configuration without tokens, and the same otherwise.
pub open spec fn redaction(c: ConfigModel) -> ConfigModel {
    ConfigModel {
        linear: LinearConfigModel { accounts: without_tokens(c.linear.accounts) },
        ..c
    }
}

/// A redacted configuration holds no token, and everything else that the
/// configuration holds.
pub proof fn law_redaction_strips_tokens_only(c: ConfigModel, key: Seq<char>)
    ensures
        ({
            let r = redaction(c);
            &&& r.linear.accounts.dom() == c.linear.accounts.dom()
            &&& c.linear.accounts.dom().contains(key) ==> {
                &&& r.linear.accounts[key].token is None
                &&& r.linear.accounts[key] == (LinearAccountModel {
                    token: None,
                    ..c.linear.accounts[key]
                })
            }
            &&& r == (ConfigModel { linear: r.linear, ..c })
            &&& redaction(r) == r
        }),
{
    let r = redaction(c);
    assert(r.linear.accounts.dom() =~= c.linear.accounts.dom());
    assert(redaction(r).linear.accounts =~= r.linear.accounts);
}

// ---------------------------------------------------------------------------
// Versions
// ---------------------------------------------------------------------------
/// The configuration that an older one is brought up to date as. Analytics stay
/// on unless they were switched off.
pub open spec fn upgraded(old: ConfigV7Model) -> ConfigModel {
    ConfigModel {
        config_version: "v8"@,
        theme: old.theme,
        executor_profile: old.executor_profile,
        disclaimer_acknowledged: old.disclaimer_acknowledged,
        onboarding_acknowledged: old.onboarding_acknowledged,
        remote_onboarding_acknowledged: false,
        notifications: old.notifications,
        editor: old.editor,
        github: old.github,
        analytics_enabled: old.analytics_enabled != Some(false),
        workspace_dir: old.workspace_dir,
        last_app_version: old.last_app_version,
        show_release_notes: old.show_release_notes,
        language: old.language,
        git_branch_prefix: old.git_branch_prefix,
        showcases: old.showcases,
        pr_auto_description_enabled: true,
        pr_auto_description_prompt: None,
        commit_reminder_enabled: true,
        commit_reminder_prompt: None,
        send_message_shortcut: SendMessageShortcut::ModifierEnter,
        relay_enabled: true,
        host_nickname: None,
        linear: LinearConfigModel { accounts: Map::empty() },
    }
}

/// The configuration that a new installation starts with.
pub open spec fn initial() -> ConfigModel {
    ConfigModel {
        config_version: "v8"@,
        theme: JsonModel::Null,
        executor_profile: JsonModel::Null,
        disclaimer_acknowledged: false,
        onboarding_acknowledged: false,
        remote_onboarding_acknowledged: false,
        notifications: JsonModel::Null,
        editor: JsonModel::Null,
        github: JsonModel::Null,
        analytics_enabled: true,
        workspace_dir: None,
        last_app_version: None,
        show_release_notes: false,
        language: JsonModel::Null,
        git_branch_prefix: "vk"@,
        showcases: JsonModel::Null,
        pr_auto_description_enabled: true,
        pr_auto_description_prompt: None,
        commit_reminder_enabled: true,
        commit_reminder_prompt: None,
        send_message_shortcut: SendMessageShortcut::ModifierEnter,
        relay_enabled: true,
        host_nickname: None,
        linear: LinearConfigModel { accounts: Map::empty() },
    }
}

impl Default for LinearAccount {
    fn default() -> (r: LinearAccount)
        ensures
            r@ == (LinearAccountModel {
                token: None,
                workspace_name: None,
                team_id: None,
                state_map: Map::empty(),
                import_target_project_id: None,
                import_label: None,
            }),
    {
        LinearAccount {
            token: None,
            workspace_name: None,
            team_id: None,
            state_map: StringMap::new(),
            import_target_project_id: None,
            import_label: None,
        }
    }
}

impl Default for LinearConfig {
    fn default() -> (r: LinearConfig)
        ensures
            r@ == (LinearConfigModel { accounts: Map::empty() }),
    {
        LinearConfig { accounts: StringMap::new() }
    }
}

impl Default for Config {
    fn default() -> (r: Config)
        ensures
            r@ == initial(),
    {
        Config {
            config_version: "v8".to_owned(),
            theme: Json::Null,
            executor_profile: Json::Null,
            disclaimer_acknowledged: false,
            onboarding_acknowledged: false,
            remote_onboarding_acknowledged: false,
            notifications: Json::Null,
            editor: Json::Null,
            github: Json::Null,
            analytics_enabled: true,
            workspace_dir: None,
            last_app_version: None,
            show_release_notes: false,
            language: Json::Null,
            git_branch_prefix: default_git_branch_prefix(),
            showcases: Json::Null,
            pr_auto_description_enabled: default_pr_auto_description_enabled(),
            pr_auto_description_prompt: None,
            commit_reminder_enabled: default_commit_reminder_enabled(),
            commit_reminder_prompt: None,
            send_message_shortcut: SendMessageShortcut::default(),
            relay_enabled: default_relay_enabled(),
            host_nickname: None,
            linear: LinearConfig::default(),
        }
    }
}

impl LinearConfig {
    /// The accounts without their tokens.
    fn redacted(&self) -> (r: LinearConfig)
        ensures
            r@.accounts == without_tokens(self@.accounts),
    {
        let mut accounts: StringMap<LinearAccount> = StringMap::new();
        let n = self.accounts.len();
        let ghost keys = self.accounts.keys_in_order();
        let ghost all = self.accounts@;
        for i in 0..n
            invariant
                n == keys.len(),
                keys == self.accounts.keys_in_order(),
                all == self.accounts@,
                forall|k: Seq<char>| #[trigger]
                    accounts@.dom().contains(k) <==> keys.take(i as int).contains(k),
                forall|k: Seq<char>| #[trigger]
                    accounts@.dom().contains(k) ==> all.dom().contains(k) && accounts@[k]
                        == without_token(all[k]),
        {
            let (key, account) = self.accounts.entry(i);
            let mut bare = account.clone();
            bare.token = None;
            assert(bare@ == without_token(account@));
            accounts.insert(key.to_owned(), bare);
            proof {
                let grown = keys.take(i + 1);
                assert(grown =~= keys.take(i as int).push(key@));
                assert forall|k: Seq<char>| #[trigger] accounts@.dom().contains(k)
                    <==> grown.contains(k) by {
                    if keys.take(i as int).contains(k) {
                        let j = choose|j: int| 0 <= j < i && keys.take(i as int)[j] == k;
                        assert(grown[j] == k);
                    }
                    assert(grown[i as int] == key@);
                }
            }
        }
        proof {
            assert(keys.take(n as int) =~= keys);
            self.accounts.lemma_keys_in_order();
            assert(accounts@ =~= without_tokens(all));
        }
        LinearConfig { accounts }
    }
}

impl Config {
    /// The configuration as it may be sent to a client: without tokens.
    pub fn redacted(&self) -> (r: Config)
        ensures
            r@ == redaction(self@),
    {
        let mut r = self.clone();
        r.linear = self.linear.redacted();
        r
    }

    /// Brings an older configuration up to date.
    pub fn from_v7_config(old: ConfigV7) -> (r: Config)
        ensures
            r@ == upgraded(old@),
    {
        let analytics_enabled = match old.analytics_enabled {
            Some(enabled) => enabled,
            None => true,
        };
        Config {
            config_version: "v8".to_owned(),
            theme: old.theme,
            executor_profile: old.executor_profile,
            disclaimer_acknowledged: old.disclaimer_acknowledged,
            onboarding_acknowledged: old.onboarding_acknowledged,
            remote_onboarding_acknowledged: false,
            notifications: old.notifications,
            editor: old.editor,
            github: old.github,
            analytics_enabled,
            workspace_dir: old.workspace_dir,
            last_app_version: old.last_app_version,
            show_release_notes: old.show_release_notes,
            language: old.language,
            git_branch_prefix: old.git_branch_prefix,
            showcases: old.showcases,
            pr_auto_description_enabled: true,
            pr_auto_description_prompt: None,
            commit_reminder_enabled: true,
            commit_reminder_prompt: None,
            send_message_shortcut: SendMessageShortcut::default(),
            relay_enabled: true,
            host_nickname: None,
            linear: LinearConfig::default(),
        }
    }

    /// The configuration of a stored text, given how it reads as a current and as
    /// an older one: the current one where it is one, else the older one brought
    /// up to date.
    pub fn from_stored(current: Option<Config>, previous: ConfigV7) -> (r: Config)
        ensures
            r@ == match current {
                Some(c) => if c.config_version@ == "v8"@ {
                    c@
                } else {
                    upgraded(previous@)
                },
                None => upgraded(previous@),
            },
    {
        if let Some(c) = current {
            if text::same(c.config_version.as_str(), "v8") {
                return c;
            }
        }
        Self::from_v7_config(previous)
    }
}

/// A configuration that is brought up to date keeps what the older one holds, each
/// value under its own name. Analytics are off only where they were switched off.
/// What the older one did not know is as in a new installation, without accounts.
pub proof fn law_upgrade_keeps_what_was_set(old: ConfigV7Model)
    ensures
        upgraded(old).config_version == "v8"@,
        upgraded(old).theme == old.theme,
        upgraded(old).executor_profile == old.executor_profile,
        upgraded(old).disclaimer_acknowledged == old.disclaimer_acknowledged,
        upgraded(old).onboarding_acknowledged == old.onboarding_acknowledged,
        upgraded(old).notifications == old.notifications,
        upgraded(old).editor == old.editor,
        upgraded(old).github == old.github,
        upgraded(old).workspace_dir == old.workspace_dir,
        upgraded(old).last_app_version == old.last_app_version,
        upgraded(old).show_release_notes == old.show_release_notes,
        upgraded(old).language == old.language,
        upgraded(old).git_branch_prefix == old.git_branch_prefix,
        upgraded(old).showcases == old.showcases,
        old.analytics_enabled matches Some(on) ==> upgraded(old).analytics_enabled == on,
        old.analytics_enabled is None ==> upgraded(old).analytics_enabled,
        upgraded(old).remote_onboarding_acknowledged == initial().remote_onboarding_acknowledged,
        upgraded(old).pr_auto_description_enabled == initial().pr_auto_description_enabled,
        upgraded(old).pr_auto_description_prompt == initial().pr_auto_description_prompt,
        upgraded(old).commit_reminder_enabled == initial().commit_reminder_enabled,
        upgraded(old).commit_reminder_prompt == initial().commit_reminder_prompt,
        upgraded(old).send_message_shortcut == initial().send_message_shortcut,
        upgraded(old).relay_enabled == initial().relay_enabled,
        upgraded(old).host_nickname == initial().host_nickname,
        upgraded(old).linear.accounts == Map::<Seq<char>, LinearAccountModel>::empty(),
{
}

/// A new installation has acknowledged nothing, has analytics, the description of
/// pull requests, the reminder to commit and the relay on, names branches after
/// `vk`, and has no Linear account.
pub proof fn law_new_installation_starts_plain()
    ensures
        initial().config_version == "v8"@,
        !initial().disclaimer_acknowledged,
        !initial().onboarding_acknowledged,
        !initial().remote_onboarding_acknowledged,
        initial().analytics_enabled,
        !initial().show_release_notes,
        initial().workspace_dir is None,
        initial().last_app_version is None,
        initial().git_branch_prefix == "vk"@,
        initial().pr_auto_description_enabled,
        initial().pr_auto_description_prompt is None,
        initial().commit_reminder_enabled,
        initial().commit_reminder_prompt is None,
        initial().send_message_shortcut == SendMessageShortcut::ModifierEnter,
        initial().relay_enabled,
        initial().host_nickname is None,
        initial().linear.accounts == Map::<Seq<char>, LinearAccountModel>::empty(),
{
}

} // verus!
