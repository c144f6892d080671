//! The credential vault's data model: OAuth client credentials and the saved
//! identities, with the active one.
//!
//! This is the in-memory state; the embedding runtime loads it from and
//! saves it to whatever storage it uses (a file, a keyring) around these
//! verified operations.

use vstd::prelude::*;

use crate::error::AppError;
use crate::route::str_eq;

verus! {

/// One saved identity: who it is and the token that authenticates it.
#[derive(Debug)]
pub struct DiscordIdentity {
    pub id: String,
    pub username: String,
    pub token: String,
    pub is_oauth: bool,
}

/// Mathematical image of a `DiscordIdentity`.
pub struct IdentityV {
    pub id: Seq<char>,
    pub username: Seq<char>,
    pub token: Seq<char>,
    pub is_oauth: bool,
}

impl View for DiscordIdentity {
    type V = IdentityV;

    open spec fn view(&self) -> IdentityV {
        IdentityV {
            id: self.id@,
            username: self.username@,
            token: self.token@,
            is_oauth: self.is_oauth,
        }
    }
}

impl Clone for DiscordIdentity {
    fn clone(&self) -> (r: Self)
        ensures
            r@ == self@,
    {
        DiscordIdentity {
            id: self.id.clone(),
            username: self.username.clone(),
            token: self.token.clone(),
            is_oauth: self.is_oauth,
        }
    }
}

/// The views of a sequence of identities.
pub open spec fn identity_views(s: Seq<DiscordIdentity>) -> Seq<IdentityV> {
    s.map_values(|x: DiscordIdentity| x@)
}

/// The identities left after removing every entry with the given id.
pub open spec fn without_identity(s: Seq<IdentityV>, id: Seq<char>) -> Seq<IdentityV>
    decreases s.len(),
{
    if s.len() == 0 {
        Seq::empty()
    } else {
        let rest = without_identity(s.drop_last(), id);
        if s.last().id == id {
            rest
        } else {
            rest.push(s.last())
        }
    }
}

/// The first position at or after `i` holding the given id, or the identity
/// count when none does.
pub open spec fn find_identity(s: Seq<IdentityV>, id: Seq<char>, i: int) -> int
    decreases s.len() - i,
    when 0 <= i <= s.len()
{
    if i >= s.len() {
        s.len() as int
    } else if s[i].id == id {
        i
    } else {
        find_identity(s, id, i + 1)
    }
}

/// The active session's authentication material: the token and whether it is
/// an OAuth bearer token.
#[derive(Debug)]
pub struct ActiveToken {
    pub token: String,
    pub is_oauth: bool,
}

/// What `get_active_token` returns: the token and kind of the first saved
/// identity matching the active id, and a no-session error exactly when no
/// identity is active or the active id is not saved.
pub open spec fn active_token_result(v: VaultV, r: Result<ActiveToken, AppError>) -> bool {
    match v.active_user_id {
        Some(a) => {
            let j = find_identity(v.identities, a, 0);
            if j < v.identities.len() {
                match r {
                    Ok(t) => t.token@ == v.identities[j].token && t.is_oauth
                        == v.identities[j].is_oauth,
                    Err(_) => false,
                }
            } else {
                match r {
                    Ok(_) => false,
                    Err(e) => e.error_code@ == "no_session"@,
                }
            }
        },
        None => match r {
            Ok(_) => false,
            Err(e) => e.error_code@ == "no_session"@,
        },
    }
}

/// Mathematical image of a `Vault`.
#[verifier::ext_equal]
pub struct VaultV {
    pub client_id: Option<Seq<char>>,
    pub client_secret: Option<Seq<char>>,
    pub active_user_id: Option<Seq<char>>,
    pub identities: Seq<IdentityV>,
}

/// The vault: OAuth client credentials, the saved identities, and which of
/// them is active.
pub struct Vault {
    pub client_id: Option<String>,
    pub client_secret: Option<String>,
    pub active_user_id: Option<String>,
    pub identities: Vec<DiscordIdentity>,
}

/// The view of an optional owned string.
pub open spec fn opt_view(o: Option<String>) -> Option<Seq<char>> {
    match o {
        Some(s) => Some(s@),
        None => None,
    }
}

impl View for Vault {
    type V = VaultV;

    open spec fn view(&self) -> VaultV {
        VaultV {
            client_id: opt_view(self.client_id),
            client_secret: opt_view(self.client_secret),
            active_user_id: opt_view(self.active_user_id),
            identities: identity_views(self.identities@),
        }
    }
}

impl Vault {
    /// An empty vault.
    pub fn new() -> (v: Vault)
        ensures
            v@.client_id is None,
            v@.client_secret is None,
            v@.active_user_id is None,
            v@.identities =~= Seq::<IdentityV>::empty(),
    {
        let v = Vault {
            client_id: None,
            client_secret: None,
            active_user_id: None,
            identities: Vec::new(),
        };
        proof {
            assert(identity_views(v.identities@) =~= Seq::<IdentityV>::empty());
        }
        v
    }

    /// Store one OAuth client credential. Only the two known keys are
    /// accepted; any other key is rejected and the vault is unchanged.
    pub fn set_credential(&mut self, key: &str, value: &str) -> (r: Result<(), AppError>)
        ensures
            key@ == "client_id"@ ==> r is Ok && final(self)@ == (VaultV {
                client_id: Some(value@),
                ..old(self)@
            }),
            key@ != "client_id"@ && key@ == "client_secret"@ ==> r is Ok && final(self)@
                == (VaultV { client_secret: Some(value@), ..old(self)@ }),
            key@ != "client_id"@ && key@ != "client_secret"@ ==> final(self)@ == old(self)@ && (
            r matches Err(e) && e.user_message@ == "Invalid credential key."@),
    {
        if str_eq(key, "client_id") {
            self.client_id = Some(value.to_owned());
            proof {
                assert(self@ =~= (VaultV { client_id: Some(value@), ..old(self)@ }));
            }
            Ok(())
        } else if str_eq(key, "client_secret") {
            self.client_secret = Some(value.to_owned());
            proof {
                assert(self@ =~= (VaultV { client_secret: Some(value@), ..old(self)@ }));
            }
            Ok(())
        } else {
            proof {
                assert(self@ =~= old(self)@);
            }
            Err(
                AppError {
                    user_message: String::from_str("Invalid credential key."),
                    error_code: String::from_str("internal_error"),
                    technical_details: None,
                },
            )
        }
    }

    /// Look up one OAuth client credential: the stored value for a known key
    /// that is set, and a missing-credential error exactly otherwise.
    pub fn get_credential(&self, key: &str) -> (r: Result<String, AppError>)
        ensures
            key@ == "client_id"@ && self@.client_id is Some ==> (r matches Ok(v) && Some(v@)
                == self@.client_id),
            key@ != "client_id"@ && key@ == "client_secret"@ && self@.client_secret is Some ==> (
            r matches Ok(v) && Some(v@) == self@.client_secret),
            (if key@ == "client_id"@ {
                self@.client_id is None
            } else if key@ == "client_secret"@ {
                self@.client_secret is None
            } else {
                true
            }) ==> (r matches Err(e) && e.error_code@ == "credentials_missing"@),
    {
        let found: Option<String> = if str_eq(key, "client_id") {
            match &self.client_id {
                Some(v) => Some(v.clone()),
                None => None,
            }
        } else if str_eq(key, "client_secret") {
            match &self.client_secret {
                Some(v) => Some(v.clone()),
                None => None,
            }
        } else {
            None
        };
        match found {
            Some(v) => Ok(v),
            None => Err(
                AppError {
                    user_message: String::from_str("Credential missing."),
                    error_code: String::from_str("credentials_missing"),
                    technical_details: None,
                },
            ),
        }
    }

    /// Save an identity: any previous entry with the same id is dropped, the
    /// identity is appended, and it becomes the active one.
    pub fn save_identity(&mut self, identity: DiscordIdentity)
        ensures
            final(self)@.identities =~= without_identity(
                old(self)@.identities,
                identity@.id,
            ).push(identity@),
            final(self)@.active_user_id == Some(identity@.id),
            final(self)@.client_id == old(self)@.client_id,
            final(self)@.client_secret == old(self)@.client_secret,
    {
        let n = self.identities.len();
        let mut kept: Vec<DiscordIdentity> = Vec::new();
        let mut i: usize = 0;
        proof {
            assert(identity_views(kept@) =~= without_identity(
                identity_views(self.identities@).subrange(0, 0),
                identity@.id,
            ));
        }
        while i < n
            invariant
                n == self.identities@.len(),
                i <= n,
                self.identities@ == old(self).identities@,
                identity_views(kept@) =~= without_identity(
                    identity_views(self.identities@).subrange(0, i as int),
                    identity@.id,
                ),
            decreases n - i,
        {
            let ghost pre = identity_views(self.identities@).subrange(0, i as int);
            let ghost post = identity_views(self.identities@).subrange(0, i as int + 1);
            proof {
                assert(post.drop_last() =~= pre);
                assert(post.last() == self.identities@[i as int]@);
            }
            let keep = !str_eq(self.identities[i].id.as_str(), identity.id.as_str());
            if keep {
                let ghost kept_pre = identity_views(kept@);
                let entry = self.identities[i].clone();
                kept.push(entry);
                proof {
                    assert(identity_views(kept@) =~= kept_pre.push(
                        self.identities@[i as int]@,
                    ));
                }
            }
            i = i + 1;
        }
        proof {
            assert(identity_views(self.identities@).subrange(0, n as int) =~= identity_views(
                self.identities@,
            ));
        }
        let ghost kept_final = identity_views(kept@);
        self.active_user_id = Some(identity.id.clone());
        kept.push(identity);
        self.identities = kept;
        proof {
            assert(identity_views(self.identities@) =~= kept_final.push(
                self.identities@[self.identities@.len() - 1]@,
            ));
        }
    }

    /// The token and kind of the active identity, or a no-session error when
    /// no active identity is saved.
    pub fn get_active_token(&self) -> (r: Result<ActiveToken, AppError>)
        ensures
            active_token_result(self@, r),
    {
        if let Some(active) = &self.active_user_id {
            proof {
                assert(self@.active_user_id == Some(active@));
            }
            let n = self.identities.len();
            let mut i: usize = 0;
            while i < n
                invariant
                    n == self.identities@.len(),
                    i <= n,
                    self@.active_user_id == Some(active@),
                    find_identity(self@.identities, active@, 0) == find_identity(
                        self@.identities,
                        active@,
                        i as int,
                    ),
                decreases n - i,
            {
                assert(self@.identities[i as int] == self.identities@[i as int]@);
                if str_eq(self.identities[i].id.as_str(), active.as_str()) {
                    proof {
                        assert(self@.identities[i as int].id == active@);
                        assert(find_identity(self@.identities, active@, i as int) == i as int);
                    }
                    let token = self.identities[i].token.clone();
                    let is_oauth = self.identities[i].is_oauth;
                    let found: Result<ActiveToken, AppError> = Ok(ActiveToken { token, is_oauth });
                    proof {
                        assert(active_token_result(self@, found));
                    }
                    return found;
                }
                i = i + 1;
            }
            proof {
                assert(find_identity(self@.identities, active@, 0) == self@.identities.len());
            }
        }
        let missing: Result<ActiveToken, AppError> = Err(
            AppError {
                user_message: String::from_str("No active session."),
                error_code: String::from_str("no_session"),
                technical_details: None,
            },
        );
        proof {
            assert(active_token_result(self@, missing));
        }
        missing
    }

    /// A copy of every saved identity.
    pub fn list_identities(&self) -> (r: Vec<DiscordIdentity>)
        ensures
            identity_views(r@) =~= self@.identities,
    {
        let n = self.identities.len();
        let mut out: Vec<DiscordIdentity> = Vec::new();
        let mut i: usize = 0;
        proof {
            assert(identity_views(out@) =~= self@.identities.subrange(0, 0));
        }
        while i < n
            invariant
                n == self.identities@.len(),
                i <= n,
                identity_views(out@) =~= self@.identities.subrange(0, i as int),
            decreases n - i,
        {
            let ghost out_pre = identity_views(out@);
            let entry = self.identities[i].clone();
            out.push(entry);
            proof {
                assert(identity_views(out@) =~= out_pre.push(self.identities@[i as int]@));
                assert(self@.identities.subrange(0, i as int + 1) =~= self@.identities.subrange(
                    0,
                    i as int,
                ).push(self@.identities[i as int]));
            }
            i = i + 1;
        }
        proof {
            assert(self@.identities.subrange(0, n as int) =~= self@.identities);
        }
        out
    }

    /// The saved identity with the given id, or an error when none matches:
    /// the lookup a caller makes before switching to another identity.
    pub fn lookup_identity(&self, id: &str) -> (r: Result<DiscordIdentity, AppError>)
        ensures
            ({
                let j = find_identity(self@.identities, id@, 0);
                if j < self@.identities.len() {
                    match r {
                        Ok(ident) => ident@ == self@.identities[j],
                        Err(_) => false,
                    }
                } else {
                    match r {
                        Ok(_) => false,
                        Err(e) => e.user_message@ == "Identity not found."@,
                    }
                }
            }),
    {
        let n = self.identities.len();
        let mut i: usize = 0;
        while i < n
            invariant
                n == self.identities@.len(),
                i <= n,
                find_identity(self@.identities, id@, 0) == find_identity(
                    self@.identities,
                    id@,
                    i as int,
                ),
            decreases n - i,
        {
            assert(self@.identities[i as int] == self.identities@[i as int]@);
            if str_eq(self.identities[i].id.as_str(), id) {
                proof {
                    assert(self@.identities[i as int].id == id@);
                    assert(find_identity(self@.identities, id@, i as int) == i as int);
                }
                return Ok(self.identities[i].clone());
            }
            i = i + 1;
        }
        Err(
            AppError {
                user_message: String::from_str("Identity not found."),
                error_code: String::from_str("internal_error"),
                technical_details: None,
            },
        )
    }

    /// Remove every identity with the given id; when it was the active one,
    /// the vault is left with no active identity.
    pub fn remove_identity(&mut self, id: &str)
        ensures
            final(self)@.identities =~= without_identity(old(self)@.identities, id@),
            final(self)@.active_user_id == (if old(self)@.active_user_id == Some(id@) {
                Option::<Seq<char>>::None
            } else {
                old(self)@.active_user_id
            }),
            final(self)@.client_id == old(self)@.client_id,
            final(self)@.client_secret == old(self)@.client_secret,
    {
        let n = self.identities.len();
        let mut kept: Vec<DiscordIdentity> = Vec::new();
        let mut i: usize = 0;
        proof {
            assert(identity_views(kept@) =~= without_identity(
                identity_views(self.identities@).subrange(0, 0),
                id@,
            ));
        }
        while i < n
            invariant
                n == self.identities@.len(),
                i <= n,
                self.identities@ == old(self).identities@,
                identity_views(kept@) =~= without_identity(
                    identity_views(self.identities@).subrange(0, i as int),
                    id@,
                ),
            decreases n - i,
        {
            let ghost pre = identity_views(self.identities@).subrange(0, i as int);
            let ghost post = identity_views(self.identities@).subrange(0, i as int + 1);
            proof {
                assert(post.drop_last() =~= pre);
                assert(post.last() == self.identities@[i as int]@);
            }
            let keep = !str_eq(self.identities[i].id.as_str(), id);
            if keep {
                let ghost kept_pre = identity_views(kept@);
                let entry = self.identities[i].clone();
                kept.push(entry);
                proof {
                    assert(identity_views(kept@) =~= kept_pre.push(
                        self.identities@[i as int]@,
                    ));
                }
            }
            i = i + 1;
        }
        proof {
            assert(identity_views(self.identities@).subrange(0, n as int) =~= identity_views(
                self.identities@,
            ));
        }
        self.identities = kept;
        let clear_active = match &self.active_user_id {
            Some(a) => str_eq(a.as_str(), id),
            None => false,
        };
        if clear_active {
            self.active_user_id = None;
        }
    }
}

} // verus!

