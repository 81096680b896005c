//! Service configuration, read from named settings (the environment in the
//! running service).

use vstd::prelude::*;

verus! {

#[derive(Debug, Clone)]
pub struct Config {
    pub database_url: String,
    pub bind_addr: String,
    pub dev_user: Option<String>,
}

/// Text of a looked-up setting.
pub open spec fn setting_text(value: Option<String>) -> Option<Seq<char>> {
    match value {
        Some(s) => Some(s@),
        None => None,
    }
}

/// A setting's value, or `default` when it is not set.
pub open spec fn or_default(value: Option<Seq<char>>, default: Seq<char>) -> Seq<char> {
    match value {
        Some(s) => s,
        None => default,
    }
}

/// A setting's value when it is set and not empty.
pub open spec fn non_empty(value: Option<Seq<char>>) -> Option<Seq<char>> {
    match value {
        Some(s) => if s.len() > 0 {
            Some(s)
        } else {
            None
        },
        None => None,
    }
}

impl Config {
    /// Builds the configuration from a lookup of named settings:
    /// `DATABASE_URL` (default `sqlite://stars.db`), `BIND_ADDR` (default
    /// `0.0.0.0:8080`) and `DEV_USER` (absent when unset or empty).
    pub fn from_map(get: impl Fn(&str) -> Option<String>) -> (cfg: Config)
        requires
            forall|k: &str| #[trigger] get.requires((k,)),
        ensures
            exists|db: Option<String>, bind: Option<String>, dev: Option<String>|
                {
                    &&& get.ensures(("DATABASE_URL",), db)
                    &&& get.ensures(("BIND_ADDR",), bind)
                    &&& get.ensures(("DEV_USER",), dev)
                    &&& cfg.database_url@ == or_default(setting_text(db), "sqlite://stars.db"@)
                    &&& cfg.bind_addr@ == or_default(setting_text(bind), "0.0.0.0:8080"@)
                    &&& setting_text(cfg.dev_user) == non_empty(setting_text(dev))
                },
    {
        let db = get("DATABASE_URL");
        let bind = get("BIND_ADDR");
        let dev = get("DEV_USER");
        let ghost (db0, bind0, dev0) = (db, bind, dev);
        let database_url = match db {
            Some(s) => s,
            None => "sqlite://stars.db".to_owned(),
        };
        let bind_addr = match bind {
            Some(s) => s,
            None => "0.0.0.0:8080".to_owned(),
        };
        let dev_user = match dev {
            Some(s) => if s.as_str().is_empty() {
                None
            } else {
                Some(s)
            },
            None => None,
        };
        let cfg = Config { database_url, bind_addr, dev_user };
        // The settings read above witness the existential.
        assert({
            &&& get.ensures(("DATABASE_URL",), db0)
            &&& get.ensures(("BIND_ADDR",), bind0)
            &&& get.ensures(("DEV_USER",), dev0)
            &&& cfg.database_url@ == or_default(setting_text(db0), "sqlite://stars.db"@)
            &&& cfg.bind_addr@ == or_default(setting_text(bind0), "0.0.0.0:8080"@)
            &&& setting_text(cfg.dev_user) == non_empty(setting_text(dev0))
        });
        cfg
    }
}

} // verus!
