//! The payment plugin: links to a checkout server and the cached
//! subscription status.

use crate::plugin_api::{PaymentPlugin, Permission, Plugin, PluginError, PluginMetadata, PluginType};
use crate::text::{chars_of, decimal, owned, push_decimal, string_from_chars};
use vstd::prelude::*;

verus! {

/// Where payments go, and the cached subscription status.
#[derive(Debug, Clone)]
pub struct PaymentConfig {
    pub server_url: String,
    pub subscription_active: bool,
}

impl Default for PaymentConfig {
    fn default() -> (r: PaymentConfig)
        ensures
            r.server_url@ == "https://api.mangameeya.com/payments"@,
            !r.subscription_active,
    {
        PaymentConfig { server_url: owned("https://api.mangameeya.com/payments"), subscription_active: false }
    }
}

/// A description with each space written as `+`.
pub open spec fn plus_encoded(d: Seq<char>) -> Seq<char> {
    Seq::new(d.len(), |i: int| if d[i] == ' ' { '+' } else { d[i] })
}

/// The checkout address for a payment of `amount` cents.
pub open spec fn checkout_url(server: Seq<char>, amount: nat, description: Seq<char>) -> Seq<char> {
    server + "/checkout?amount="@ + decimal(amount) + "&desc="@ + plus_encoded(description)
}

fn append_str(out: &mut Vec<char>, s: &str)
    ensures
        final(out)@ == old(out)@ + s@,
{
    let c = chars_of(s);
    let mut i: usize = 0;
    while i < c.len()
        invariant
            i <= c@.len(),
            c@ == s@,
            out@ == old(out)@ + c@.take(i as int),
        decreases c@.len() - i,
    {
        out.push(c[i]);
        i = i + 1;
        assert(out@ =~= old(out)@ + c@.take(i as int));
    }
    assert(c@.take(c@.len() as int) =~= c@);
}

/// Tips and subscriptions through a Stripe checkout server; no payment data
/// is kept locally.
pub struct StripePaymentPlugin {
    meta: PluginMetadata,
    config: PaymentConfig,
}

impl StripePaymentPlugin {
    /// The plugin's metadata.
    pub closed spec fn meta_view(&self) -> PluginMetadata {
        self.meta
    }

    /// The plugin's settings.
    pub closed spec fn config_view(&self) -> PaymentConfig {
        self.config
    }

    /// The plugin as `new` makes it: its metadata and settings, field by
    /// field.
    pub open spec fn is_new(&self) -> bool {
        &&& self.meta_view().id@ == "mm.payment.stripe"@
        &&& self.meta_view().name@ == "Stripe Payments"@
        &&& self.meta_view().version@ == "0.1.0"@
        &&& self.meta_view().author@ == "MangaMeeya"@
        &&& self.meta_view().description@ == "Support MangaMeeya with tips or subscribe for premium features"@
        &&& self.meta_view().plugin_type == PluginType::Payment
        &&& self.meta_view().permissions@ == seq![Permission::PaymentProcessing, Permission::NetworkAccess]
        &&& self.config_view().server_url@ == "https://api.mangameeya.com/payments"@
        &&& !self.config_view().subscription_active
    }

    /// The plugin with the default settings.
    pub fn new() -> (r: StripePaymentPlugin)
        ensures
            r.meta_view().id@ == "mm.payment.stripe"@,
            r.meta_view().plugin_type == PluginType::Payment,
            r.meta_view().permissions@ == seq![Permission::PaymentProcessing, Permission::NetworkAccess],
            r.config_view().server_url@ == "https://api.mangameeya.com/payments"@,
            !r.config_view().subscription_active,
            r.is_new(),
    {
        let mut permissions: Vec<Permission> = Vec::new();
        permissions.push(Permission::PaymentProcessing);
        permissions.push(Permission::NetworkAccess);
        let meta = PluginMetadata {
            id: owned("mm.payment.stripe"),
            name: owned("Stripe Payments"),
            version: owned("0.1.0"),
            author: owned("MangaMeeya"),
            description: owned("Support MangaMeeya with tips or subscribe for premium features"),
            plugin_type: PluginType::Payment,
            permissions,
        };
        StripePaymentPlugin { meta, config: PaymentConfig::default() }
    }

    /// The plugin with the given settings.
    pub fn with_config(self, config: PaymentConfig) -> (r: StripePaymentPlugin)
        ensures
            r.meta_view() == self.meta_view(),
            r.config_view() == config,
    {
        let mut p = self;
        p.config = config;
        p
    }

    /// The plugin's settings.
    pub fn config(&self) -> (r: &PaymentConfig)
        ensures
            *r == self.config_view(),
    {
        &self.config
    }
}

impl Default for StripePaymentPlugin {
    fn default() -> (r: StripePaymentPlugin)
        ensures
            r.is_new(),
    {
        StripePaymentPlugin::new()
    }
}

impl Plugin for StripePaymentPlugin {
    fn metadata(&self) -> (r: &PluginMetadata)
        ensures
            *r == self.meta_view(),
    {
        &self.meta
    }
}

impl PaymentPlugin for StripePaymentPlugin {
    fn check_subscription(&self) -> (r: Result<bool, PluginError>)
        ensures
            r matches Ok(b) && b == self.config_view().subscription_active,
    {
        Ok(self.config.subscription_active)
    }

    fn get_payment_url(&self, amount_cents: u64, description: &str) -> (r: Result<String, PluginError>)
        ensures
            r matches Ok(u) && u@ == checkout_url(self.config_view().server_url@, amount_cents as nat, description@),
    {
        let mut out = chars_of(self.config.server_url.as_str());
        append_str(&mut out, "/checkout?amount=");
        push_decimal(&mut out, amount_cents);
        append_str(&mut out, "&desc=");
        let d = chars_of(description);
        let ghost base = out@;
        let mut i: usize = 0;
        while i < d.len()
            invariant
                i <= d@.len(),
                d@ == description@,
                out@ == base + plus_encoded(description@).take(i as int),
            decreases d@.len() - i,
        {
            out.push(if d[i] == ' ' { '+' } else { d[i] });
            i = i + 1;
            assert(out@ =~= base + plus_encoded(description@).take(i as int));
        }
        assert(plus_encoded(description@).take(d@.len() as int) =~= plus_encoded(description@));
        assert(out@ =~= checkout_url(self.config.server_url@, amount_cents as nat, description@));
        Ok(string_from_chars(out.as_slice()))
    }
}

} // verus!
