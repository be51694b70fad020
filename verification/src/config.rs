use vstd::prelude::*;

verus! {

/// The singleton outbound-mail configuration: endpoint, credentials and
/// sender address. The stored password is never echoed back verbatim: reads
/// replace a non-empty password by a fixed placeholder, and an update that
/// carries the placeholder (or nothing) leaves the stored password as it is.
#[derive(Debug)]
pub struct EmailConfig {
    pub smtp_host: String,
    pub smtp_port: u16,
    pub smtp_user: String,
    pub smtp_password: String,
    pub smtp_from: String,
}

impl Clone for EmailConfig {
    fn clone(&self) -> (r: Self)
        ensures
            r == *self,
    {
        EmailConfig {
            smtp_host: self.smtp_host.clone(),
            smtp_port: self.smtp_port,
            smtp_user: self.smtp_user.clone(),
            smtp_password: self.smtp_password.clone(),
            smtp_from: self.smtp_from.clone(),
        }
    }
}

/// A caller-supplied replacement for the stored configuration.
#[derive(Debug)]
pub struct UpdateEmailConfig {
    pub smtp_host: String,
    pub smtp_port: u16,
    pub smtp_user: String,
    pub smtp_password: String,
    pub smtp_from: String,
}

impl UpdateEmailConfig {
    /// The configuration the update describes, taken verbatim (password
    /// included): what an administrator trials with a test message before
    /// saving anything.
    pub fn as_config(&self) -> (r: EmailConfig)
        ensures
            r.smtp_host == self.smtp_host,
            r.smtp_port == self.smtp_port,
            r.smtp_user == self.smtp_user,
            r.smtp_password == self.smtp_password,
            r.smtp_from == self.smtp_from,
    {
        EmailConfig {
            smtp_host: self.smtp_host.clone(),
            smtp_port: self.smtp_port,
            smtp_user: self.smtp_user.clone(),
            smtp_password: self.smtp_password.clone(),
            smtp_from: self.smtp_from.clone(),
        }
    }
}

/// The placeholder that stands in for a stored password in anything a caller
/// gets back.
pub open spec fn mask_text() -> Seq<char> {
    "********"@
}

/// What a caller sees in place of the stored password `p`: an empty password
/// stays visibly empty, anything else is masked.
pub open spec fn masked_password(p: Seq<char>) -> Seq<char> {
    if p.len() == 0 {
        p
    } else {
        mask_text()
    }
}

/// Whether an update's password field means "leave the stored password
/// unchanged": it does when empty or when it is the placeholder itself.
pub open spec fn keeps_password(new_pw: Seq<char>) -> bool {
    new_pw.len() == 0 || new_pw == mask_text()
}

/// The password stored after applying an update: the old one when the update
/// keeps it, the new one otherwise.
pub open spec fn applied_password(old_pw: Seq<char>, new_pw: Seq<char>) -> Seq<char> {
    if keeps_password(new_pw) {
        old_pw
    } else {
        new_pw
    }
}

/// Law: fetching the configuration masks the password, and saving the masked
/// placeholder back leaves the stored password unchanged.
pub proof fn lemma_masked_password_round_trip(p: Seq<char>)
    ensures
        applied_password(p, masked_password(p)) == p,
{
}

/// Law: saving a new password that is non-empty and not the placeholder
/// stores exactly that password.
pub proof fn lemma_new_password_applies(old_pw: Seq<char>, new_pw: Seq<char>)
    requires
        new_pw.len() > 0,
        new_pw != mask_text(),
    ensures
        applied_password(old_pw, new_pw) == new_pw,
{
}

impl EmailConfig {
    /// The configuration as a caller may see it: the password replaced by
    /// the placeholder unless it is empty.
    pub fn masked(&self) -> (r: EmailConfig)
        ensures
            r.smtp_host == self.smtp_host,
            r.smtp_port == self.smtp_port,
            r.smtp_user == self.smtp_user,
            r.smtp_from == self.smtp_from,
            r.smtp_password@ == masked_password(self.smtp_password@),
    {
        let empty = String::new();
        proof {
            assert(self.smtp_password@.len() == 0 ==> self.smtp_password@ =~= Seq::<char>::empty());
        }
        let shown = if self.smtp_password == empty {
            String::new()
        } else {
            "********".to_owned()
        };
        EmailConfig {
            smtp_host: self.smtp_host.clone(),
            smtp_port: self.smtp_port,
            smtp_user: self.smtp_user.clone(),
            smtp_password: shown,
            smtp_from: self.smtp_from.clone(),
        }
    }

    /// Replaces the configuration by the update, except that a password that
    /// `keeps_password` admits (empty, or the placeholder a caller got back
    /// from `masked`) leaves the stored password unchanged.
    pub fn apply_update(&mut self, u: &UpdateEmailConfig)
        ensures
            final(self).smtp_host == u.smtp_host,
            final(self).smtp_port == u.smtp_port,
            final(self).smtp_user == u.smtp_user,
            final(self).smtp_from == u.smtp_from,
            final(self).smtp_password@ == applied_password(
                old(self).smtp_password@,
                u.smtp_password@,
            ),
    {
        let empty = String::new();
        let mask = "********".to_owned();
        if !(u.smtp_password == empty) && !(u.smtp_password == mask) {
            self.smtp_password = u.smtp_password.clone();
            proof {
                assert(!keeps_password(u.smtp_password@)) by {
                    assert(u.smtp_password@.len() == 0 ==> u.smtp_password@ =~= Seq::<char>::empty());
                }
            }
        } else {
            proof {
                assert(keeps_password(u.smtp_password@));
            }
        }
        self.smtp_host = u.smtp_host.clone();
        self.smtp_port = u.smtp_port;
        self.smtp_user = u.smtp_user.clone();
        self.smtp_from = u.smtp_from.clone();
    }
}

} // verus!
