//! Runtime configuration: connection settings, input/output limits,
//! per-command cooldown windows, the status-quote pool and lookup settings.
//!
//! Reading and writing the configuration file is the surrounding program's
//! business; the types here carry plain values only.

use vstd::prelude::*;

verus! {

/// Connection settings for the chat platform.
#[derive(Debug, Clone)]
pub struct DiscordConfig {
    pub token: String,
    pub application_id: Option<u64>,
}

/// Bounds on what a command accepts and returns.
#[derive(Debug, Clone)]
pub struct LimitsConfig {
    pub max_input_size: usize,
    pub max_output_size: usize,
}

/// Cooldown windows, in seconds, per command family.
#[derive(Debug, Clone)]
pub struct CooldownConfig {
    pub global_cooldown: u64,
    pub per_user_cooldown: u64,
    pub hash_cooldown: u64,
    pub github_cooldown: u64,
    pub color_cooldown: u64,
}

/// The pool of status quotes and how often to rotate them, in minutes.
#[derive(Debug)]
pub struct QuotesConfig {
    pub quotes: Vec<String>,
    pub update_interval_minutes: (u64, u64),
}

/// Settings for talking to the GitHub API.
#[derive(Debug, Clone)]
pub struct GitHubConfig {
    pub user_agent: String,
    pub token: Option<String>,
}

/// The whole runtime configuration.
#[derive(Debug)]
pub struct Config {
    pub discord: DiscordConfig,
    pub limits: LimitsConfig,
    pub cooldowns: CooldownConfig,
    pub quotes: QuotesConfig,
    pub github: GitHubConfig,
}

impl Default for Config {
    /// The stock configuration: empty credentials, 4096/4000 size limits,
    /// short per-command cooldowns and a default quote pool.
    fn default() -> (r: Self)
        ensures
            r.discord.token@.len() == 0,
            r.discord.application_id is None,
            r.limits.max_input_size == 4096,
            r.limits.max_output_size == 4000,
            r.cooldowns.global_cooldown == 1,
            r.cooldowns.per_user_cooldown == 3,
            r.cooldowns.hash_cooldown == 5,
            r.cooldowns.github_cooldown == 10,
            r.cooldowns.color_cooldown == 2,
            r.quotes.quotes@.len() > 0,
            r.quotes.update_interval_minutes == (3u64, 5u64),
            r.github.user_agent@ == "Arisa-Bot/1.0"@,
            r.github.token is None,
    {
        let mut quotes: Vec<String> = Vec::new();
        quotes.push(("segfault yourself").to_owned());
        quotes.push(("a monad is just a monoid in the category of endofunctors").to_owned());
        quotes.push(("GITPULLO COMMITO MERGE CONFLICTO").to_owned());
        quotes.push(("cat dev random").to_owned());
        quotes.push(("im sexy and i know it").to_owned());
        Config {
            discord: DiscordConfig { token: String::new(), application_id: None },
            limits: LimitsConfig { max_input_size: 4096, max_output_size: 4000 },
            cooldowns: CooldownConfig {
                global_cooldown: 1,
                per_user_cooldown: 3,
                hash_cooldown: 5,
                github_cooldown: 10,
                color_cooldown: 2,
            },
            quotes: QuotesConfig { quotes, update_interval_minutes: (3, 5) },
            github: GitHubConfig { user_agent: ("Arisa-Bot/1.0").to_owned(), token: None },
        }
    }
}

} // verus!
