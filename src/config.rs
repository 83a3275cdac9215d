use vstd::prelude::*;

verus! {

/// Account settings: credentials and tokens of the data and notification services, and
/// the capital unit per trade as written in the settings file.
pub struct GdriveJson {
    pub jquants_mail: String,
    pub jquants_pw: String,
    pub jquants_refresh_token: String,
    pub jquants_id_token: String,
    pub jquants_unit: String,
    pub line_token: String,
    pub gmo_coin_fx_api_key: String,
    pub gmo_coin_fx_api_secret: String,
}

impl GdriveJson {
    pub fn jquants_mail(&self) -> (r: &str)
        ensures
            r@ == self.jquants_mail@,
    {
        self.jquants_mail.as_str()
    }

    pub fn jquants_id_token(&self) -> (r: &str)
        ensures
            r@ == self.jquants_id_token@,
    {
        self.jquants_id_token.as_str()
    }

    pub fn jquants_refresh_token(&self) -> (r: &str)
        ensures
            r@ == self.jquants_refresh_token@,
    {
        self.jquants_refresh_token.as_str()
    }

    pub fn jquants_pw(&self) -> (r: &str)
        ensures
            r@ == self.jquants_pw@,
    {
        self.jquants_pw.as_str()
    }

    pub fn line_token(&self) -> (r: &str)
        ensures
            r@ == self.line_token@,
    {
        self.line_token.as_str()
    }

    pub fn _gmo_coin_fx_api_key(&self) -> (r: &str)
        ensures
            r@ == self.gmo_coin_fx_api_key@,
    {
        self.gmo_coin_fx_api_key.as_str()
    }

    pub fn _gmo_coin_fx_api_secret(&self) -> (r: &str)
        ensures
            r@ == self.gmo_coin_fx_api_secret@,
    {
        self.gmo_coin_fx_api_secret.as_str()
    }

    /// Replaces the refresh token, leaving the rest.
    pub fn set_jquants_refresh_token(&mut self, token: String)
        ensures
            final(self).jquants_refresh_token@ == token@,
            final(self).jquants_id_token@ == old(self).jquants_id_token@,
            final(self).jquants_mail@ == old(self).jquants_mail@,
            final(self).jquants_pw@ == old(self).jquants_pw@,
            final(self).jquants_unit@ == old(self).jquants_unit@,
            final(self).line_token@ == old(self).line_token@,
            final(self).gmo_coin_fx_api_key@ == old(self).gmo_coin_fx_api_key@,
            final(self).gmo_coin_fx_api_secret@ == old(self).gmo_coin_fx_api_secret@,
    {
        self.jquants_refresh_token = token;
    }

    /// Replaces the id token, leaving the rest.
    pub fn set_jquants_id_token(&mut self, token: String)
        ensures
            final(self).jquants_id_token@ == token@,
            final(self).jquants_refresh_token@ == old(self).jquants_refresh_token@,
            final(self).jquants_mail@ == old(self).jquants_mail@,
            final(self).jquants_pw@ == old(self).jquants_pw@,
            final(self).jquants_unit@ == old(self).jquants_unit@,
            final(self).line_token@ == old(self).line_token@,
            final(self).gmo_coin_fx_api_key@ == old(self).gmo_coin_fx_api_key@,
            final(self).gmo_coin_fx_api_secret@ == old(self).gmo_coin_fx_api_secret@,
    {
        self.jquants_id_token = token;
    }
}

} // verus!
