//! Static service configuration, as the process loads it at startup. The
//! file handling itself lives outside the library; this type carries the
//! values the core decides with.

use vstd::prelude::*;

verus! {

/// The service's configuration values.
#[derive(Debug, Clone)]
pub struct BotConfig {
    pub default_prefix: String,
    pub discord_token: String,
    pub database_path: String,
    pub master_users: Vec<String>,
    pub spam_max_warnings: u32,
    pub ban_default_image: Option<String>,
    pub dm_message: Option<String>,
    pub insufficient_permissions_message: Option<String>,
}

/// The command prefix used where a guild has set none.
pub fn default_prefix() -> (s: String)
    ensures
        s@ == "."@,
{
    String::from_str(".")
}

/// Where the persistent store lives when the configuration names no path.
pub fn default_database_path() -> (s: String)
    ensures
        s@ == "yuno.db"@,
{
    String::from_str("yuno.db")
}

/// The violation ceiling used when the configuration says nothing.
pub fn default_spam_max_warnings() -> (n: u32)
    ensures
        n == 3,
{
    3
}

impl Default for BotConfig {
    /// A configuration of nothing but defaults; the token is left empty and
    /// must be filled in before the service can connect.
    fn default() -> (c: Self)
        ensures
            c.default_prefix@ == "."@,
            c.discord_token@ == Seq::<char>::empty(),
            c.database_path@ == "yuno.db"@,
            c.master_users@ == Seq::<String>::empty(),
            c.spam_max_warnings == 3,
            c.ban_default_image is None,
            c.dm_message is None,
            c.insufficient_permissions_message is None,
    {
        BotConfig {
            default_prefix: default_prefix(),
            discord_token: String::new(),
            database_path: default_database_path(),
            master_users: Vec::new(),
            spam_max_warnings: default_spam_max_warnings(),
            ban_default_image: None,
            dm_message: None,
            insufficient_permissions_message: None,
        }
    }
}

impl BotConfig {
    /// Whether the identifier names a configured master user.
    pub fn is_master_user(&self, user_id: &str) -> (r: bool)
        ensures
            r == exists|i: int|
                0 <= i < self.master_users@.len() && (#[trigger] self.master_users@[i])@
                    == user_id@,
    {
        let target = String::from_str(user_id);
        let n = self.master_users.len();
        let mut i: usize = 0;
        while i < n
            invariant
                n == self.master_users@.len(),
                i <= n,
                target@ == user_id@,
                forall|k: int| 0 <= k < i ==> (#[trigger] self.master_users@[k])@ != user_id@,
            decreases n - i,
        {
            let candidate: &String = &self.master_users[i];
            if *candidate == target {
                return true;
            }
            i += 1;
        }
        false
    }
}

} // verus!
