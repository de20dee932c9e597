//! Configuration-mode argument handling and the key store the session reads
//! its credentials from.

use vstd::prelude::*;

verus! {

use vstd::string::StringExecFns;
use crate::strutil::str_eq;

/// Errors of the configuration surface.
#[derive(Debug)]
pub enum Error {
    ArgParse,
    ReadConfigAction(String),
    FileRW,
    ConfigParse,
}

pub type Result<T> = std::result::Result<T, Error>;

/// Providers a key can be stored for.
#[derive(PartialEq, Eq, Structural, Hash, Debug, Clone, Copy)]
pub enum Provider {
    OpenAi,
}

/// An action to take on a configuration subject.
#[derive(Debug, Clone, Copy)]
pub enum Verb {
    Get,
    Assign,
}

/// The subject of a configuration action.
#[derive(Debug, Clone, Copy)]
pub enum What {
    Key,
}

/// The verb named by a command argument, if any.
pub open spec fn spec_verb(s: Seq<char>) -> Option<Verb> {
    if s == "get"@ {
        Option::Some(Verb::Get)
    } else if s == "set"@ {
        Option::Some(Verb::Assign)
    } else {
        Option::None
    }
}

/// The subject named by a command argument, if any.
pub open spec fn spec_what(s: Seq<char>) -> Option<What> {
    if s == "key"@ {
        Option::Some(What::Key)
    } else {
        Option::None
    }
}

/// The provider named by a command argument, if any.
pub open spec fn spec_provider(s: Seq<char>) -> Option<Provider> {
    if s == "openai"@ {
        Option::Some(Provider::OpenAi)
    } else {
        Option::None
    }
}

impl Verb {
    /// Parses an action verb; anything but `get` or `set` is rejected.
    pub fn from_str(s: &str) -> (r: Result<Verb>)
        ensures
            match r {
                Ok(v) => spec_verb(s@) == Option::Some(v),
                Err(e) => spec_verb(s@) is None && e matches Error::ArgParse,
            },
    {
        if str_eq(s, "get") {
            Ok(Verb::Get)
        } else if str_eq(s, "set") {
            Ok(Verb::Assign)
        } else {
            Err(Error::ArgParse)
        }
    }
}

impl What {
    /// Parses a subject; only `key` is known.
    pub fn from_str(s: &str) -> (r: Result<What>)
        ensures
            match r {
                Ok(v) => spec_what(s@) == Option::Some(v),
                Err(e) => spec_what(s@) is None && e matches Error::ArgParse,
            },
    {
        if str_eq(s, "key") {
            Ok(What::Key)
        } else {
            Err(Error::ArgParse)
        }
    }
}

impl Provider {
    /// Parses a provider name; only `openai` is known.
    pub fn from_str(s: &str) -> (r: Result<Provider>)
        ensures
            match r {
                Ok(v) => spec_provider(s@) == Option::Some(v),
                Err(e) => spec_provider(s@) is None && e matches Error::ArgParse,
            },
    {
        if str_eq(s, "openai") {
            Ok(Provider::OpenAi)
        } else {
            Err(Error::ArgParse)
        }
    }
}

/// Reads the three configuration-mode arguments: the verb, the subject and
/// the provider, in that order. The first argument that does not parse is
/// reported, verb first, then subject, then provider; the triple is returned
/// exactly when all three parse.
pub fn get_config_action(args: &[String]) -> (r: Result<(Verb, What, Provider)>)
    requires
        args@.len() == 3,
    ensures
        match r {
            Ok(t) => spec_verb(args@[0]@) == Option::Some(t.0) && spec_what(args@[1]@)
                == Option::Some(t.1) && spec_provider(args@[2]@) == Option::Some(t.2),
            Err(e) => match e {
                Error::ReadConfigAction(m) => {
                    if spec_verb(args@[0]@) is None {
                        m@ == "Error: unrecognized verb argument"@
                    } else if spec_what(args@[1]@) is None {
                        m@ == "Error: unrecognized what argument"@
                    } else {
                        spec_provider(args@[2]@) is None && m@
                            == "Error: unrecognized who argument"@
                    }
                },
                _ => false,
            },
        },
{
    let verb = match Verb::from_str(args[0].as_str()) {
        Ok(v) => v,
        Err(_) => {
            return Err(
                Error::ReadConfigAction(String::from_str("Error: unrecognized verb argument")),
            );
        },
    };
    let what = match What::from_str(args[1].as_str()) {
        Ok(w) => w,
        Err(_) => {
            return Err(
                Error::ReadConfigAction(String::from_str("Error: unrecognized what argument")),
            );
        },
    };
    let who = match Provider::from_str(args[2].as_str()) {
        Ok(w) => w,
        Err(_) => {
            return Err(
                Error::ReadConfigAction(String::from_str("Error: unrecognized who argument")),
            );
        },
    };
    Ok((verb, what, who))
}

/// Each provider owns at most one entry.
pub open spec fn distinct_providers(s: Seq<(Provider, String)>) -> bool {
    forall|i: int, j: int|
        0 <= i < j < s.len() ==> (#[trigger] s[i]).0 != (#[trigger] s[j]).0
}

/// The key text stored beside a provider, if any.
pub open spec fn lookup_key(s: Seq<(Provider, String)>, p: Provider) -> Option<Seq<char>> {
    if exists|i: int| 0 <= i < s.len() && (#[trigger] s[i]).0 == p {
        let i = choose|i: int| 0 <= i < s.len() && (#[trigger] s[i]).0 == p;
        Option::Some(s[i].1@)
    } else {
        Option::None
    }
}

proof fn lemma_lookup_at(s: Seq<(Provider, String)>, p: Provider, i: int)
    requires
        distinct_providers(s),
        0 <= i < s.len(),
        s[i].0 == p,
    ensures
        lookup_key(s, p) == Option::Some(s[i].1@),
{
    assert(exists|k: int| 0 <= k < s.len() && (#[trigger] s[k]).0 == p);
    let j = choose|k: int| 0 <= k < s.len() && (#[trigger] s[k]).0 == p;
    assert(j == i);
}

proof fn lemma_lookup_none(s: Seq<(Provider, String)>, p: Provider)
    requires
        forall|i: int| 0 <= i < s.len() ==> (#[trigger] s[i]).0 != p,
    ensures
        lookup_key(s, p) is None,
{
}

/// The persisted configuration: at most one key per provider.
pub struct Config {
    keys: Vec<(Provider, String)>,
}

impl Config {
    /// Providers appear at most once.
    pub closed spec fn wf(&self) -> bool {
        distinct_providers(self.keys@)
    }

    /// The key stored for a provider, if any.
    pub closed spec fn spec_get_key(&self, p: Provider) -> Option<Seq<char>> {
        lookup_key(self.keys@, p)
    }

    /// An empty key store, as an absent or empty configuration file yields.
    pub fn new() -> (r: Self)
        ensures
            r.wf(),
            forall|p: Provider| #[trigger] r.spec_get_key(p) is None,
    {
        let r = Self { keys: Vec::new() };
        proof {
            assert forall|p: Provider| #[trigger] r.spec_get_key(p) is None by {
                lemma_lookup_none(r.keys@, p);
            }
        }
        r
    }

    /// Stores `key` for `provider`, replacing any earlier key of that
    /// provider; other providers keep their keys.
    pub fn insert_key(&mut self, provider: Provider, key: String)
        requires
            old(self).wf(),
        ensures
            final(self).wf(),
            final(self).spec_get_key(provider) == Option::Some(key@),
            forall|q: Provider|
                q != provider ==> #[trigger] final(self).spec_get_key(q) == old(
                    self,
                ).spec_get_key(q),
    {
        let ghost before = self.keys@;
        let n = self.keys.len();
        let mut i: usize = 0;
        while i < n
            invariant
                i <= n == self.keys@.len(),
                self.keys@ == before,
                distinct_providers(before),
                forall|j: int| 0 <= j < i ==> (#[trigger] before[j]).0 != provider,
            decreases n - i,
        {
            if self.keys[i].0 == provider {
                self.keys.remove(i);
                let ghost removed = self.keys@;
                proof {
                    assert forall|j1: int, j2: int|
                        0 <= j1 < j2 < removed.len() implies (#[trigger] removed[j1]).0 != (
                    #[trigger] removed[j2]).0 by {
                        let k1 = if j1 < i {
                            j1
                        } else {
                            j1 + 1
                        };
                        let k2 = if j2 < i {
                            j2
                        } else {
                            j2 + 1
                        };
                        assert(removed[j1] == before[k1] && removed[j2] == before[k2]);
                    }
                    assert forall|j: int| 0 <= j < removed.len() implies (#[trigger] removed[j]).0
                        != provider by {
                        let k = if j < i {
                            j
                        } else {
                            j + 1
                        };
                        assert(removed[j] == before[k]);
                        if k != i {
                            assert(before[k].0 != before[i as int].0);
                        }
                    }
                }
                self.keys.push((provider, key));
                proof {
                    let after = self.keys@;
                    assert(after.last().0 == provider);
                    assert forall|j1: int, j2: int|
                        0 <= j1 < j2 < after.len() implies (#[trigger] after[j1]).0 != (
                    #[trigger] after[j2]).0 by {
                        if j2 < after.len() - 1 {
                            assert(after[j1] == removed[j1] && after[j2] == removed[j2]);
                        } else {
                            assert(after[j1] == removed[j1]);
                        }
                    }
                    lemma_lookup_at(after, provider, after.len() - 1);
                    assert forall|q: Provider| q != provider implies #[trigger] lookup_key(
                        after,
                        q,
                    ) == lookup_key(before, q) by {
                        if exists|k: int| 0 <= k < before.len() && (#[trigger] before[k]).0 == q {
                            let k = choose|k: int|
                                0 <= k < before.len() && (#[trigger] before[k]).0 == q;
                            lemma_lookup_at(before, q, k);
                            let k2: int = if k < i {
                                k
                            } else {
                                k - 1
                            };
                            assert(after[k2] == before[k]);
                            lemma_lookup_at(after, q, k2);
                        } else {
                            assert(forall|k: int|
                                0 <= k < before.len() ==> (#[trigger] before[k]).0 != q);
                            lemma_lookup_none(before, q);
                            assert forall|k: int|
                                0 <= k < after.len() implies (#[trigger] after[k]).0 != q by {
                                if k < after.len() - 1 {
                                    let k0 = if k < i {
                                        k
                                    } else {
                                        k + 1
                                    };
                                    assert(after[k] == before[k0]);
                                }
                            }
                            lemma_lookup_none(after, q);
                        }
                    }
                }
                return ;
            }
            i = i + 1;
        }
        self.keys.push((provider, key));
        proof {
            let after = self.keys@;
            assert forall|j1: int, j2: int|
                0 <= j1 < j2 < after.len() implies (#[trigger] after[j1]).0 != (
            #[trigger] after[j2]).0 by {
                if j2 < after.len() - 1 {
                    assert(after[j1] == before[j1] && after[j2] == before[j2]);
                } else {
                    assert(after[j1] == before[j1]);
                    assert(before[j1].0 != provider);
                }
            }
            lemma_lookup_at(after, provider, after.len() - 1);
            assert forall|q: Provider| q != provider implies #[trigger] lookup_key(after, q)
                == lookup_key(before, q) by {
                if exists|k: int| 0 <= k < before.len() && (#[trigger] before[k]).0 == q {
                    let k = choose|k: int| 0 <= k < before.len() && (#[trigger] before[k]).0 == q;
                    lemma_lookup_at(before, q, k);
                    assert(after[k] == before[k]);
                    lemma_lookup_at(after, q, k);
                } else {
                    lemma_lookup_none(before, q);
                    assert forall|k: int| 0 <= k < after.len() implies (#[trigger] after[k]).0
                        != q by {
                        if k < after.len() - 1 {
                            assert(after[k] == before[k]);
                        }
                    }
                    lemma_lookup_none(after, q);
                }
            }
        }
    }

    /// The key stored for a provider: exactly the one the last `insert_key`
    /// for it put there, or nothing.
    pub fn get_key(&self, provider: Provider) -> (r: Option<String>)
        requires
            self.wf(),
        ensures
            match (r, self.spec_get_key(provider)) {
                (Option::Some(s), Option::Some(k)) => s@ == k,
                (Option::None, Option::None) => true,
                _ => false,
            },
    {
        let n = self.keys.len();
        let mut i: usize = 0;
        while i < n
            invariant
                i <= n == self.keys@.len(),
                self.wf(),
                forall|j: int| 0 <= j < i ==> (#[trigger] self.keys@[j]).0 != provider,
            decreases n - i,
        {
            if self.keys[i].0 == provider {
                let found = self.keys[i].1.clone();
                proof {
                    lemma_lookup_at(self.keys@, provider, i as int);
                }
                return Some(found);
            }
            i = i + 1;
        }
        proof {
            lemma_lookup_none(self.keys@, provider);
        }
        None
    }
}

} // verus!
