//! Plugin bookkeeping: registration, enabling, and the permissions granted
//! to each plugin.

use crate::plugin_api::{Permission, PluginError, PluginMetadata, PluginType};
use crate::seqs::{
    first_index, lemma_filter_take_all, lemma_filter_take_step, lemma_first_index_at, lemma_first_index_found,
    lemma_first_index_push, lemma_first_index_update,
};
use crate::text::{owned, str_equal};
use vstd::prelude::*;

verus! {

/// Plugin ids with the permissions granted to them.
pub type GrantsView = Seq<(Seq<char>, Seq<Permission>)>;

/// Saved plugin settings: which plugins are enabled and what they were
/// granted.
#[derive(Debug)]
pub struct PluginConfig {
    pub enabled: Vec<(String, bool)>,
    pub granted_permissions: Vec<(String, Vec<Permission>)>,
}

impl Default for PluginConfig {
    fn default() -> (r: PluginConfig)
        ensures
            r.enabled@.len() == 0,
            r.granted_permissions@.len() == 0,
    {
        PluginConfig { enabled: Vec::new(), granted_permissions: Vec::new() }
    }
}

/// The ids and permissions of a list of grants.
pub open spec fn grants_view(v: Seq<(String, Vec<Permission>)>) -> GrantsView {
    v.map_values(|e: (String, Vec<Permission>)| (e.0@, e.1@))
}

/// The ids and flags of a list of enabled settings.
pub open spec fn flags_view(v: Seq<(String, bool)>) -> Seq<(Seq<char>, bool)> {
    v.map_values(|e: (String, bool)| (e.0@, e.1))
}

/// An entry is about plugin `id`.
pub open spec fn grant_of(id: Seq<char>) -> spec_fn((Seq<char>, Seq<Permission>)) -> bool {
    |e: (Seq<char>, Seq<Permission>)| e.0 == id
}

/// A setting is about plugin `id`.
pub open spec fn flag_of(id: Seq<char>) -> spec_fn((Seq<char>, bool)) -> bool {
    |e: (Seq<char>, bool)| e.0 == id
}

/// A registered plugin has id `id`.
pub open spec fn plugin_of(id: Seq<char>) -> spec_fn(PluginMetadata) -> bool {
    |m: PluginMetadata| m.id@ == id
}

/// Plugin `id` was granted `p`.
pub open spec fn perm_granted(g: GrantsView, id: Seq<char>, p: Permission) -> bool {
    match first_index(g, grant_of(id)) {
        Some(i) => g[i].1.contains(p),
        None => false,
    }
}

/// The grants after granting `p` to plugin `id`.
pub open spec fn grant_spec(g: GrantsView, id: Seq<char>, p: Permission) -> GrantsView {
    match first_index(g, grant_of(id)) {
        Some(i) => if g[i].1.contains(p) {
            g
        } else {
            g.update(i, (g[i].0, g[i].1.push(p)))
        },
        None => g.push((id, seq![p])),
    }
}

/// A permission other than `p`.
pub open spec fn other_than(p: Permission) -> spec_fn(Permission) -> bool {
    |q: Permission| q != p
}

/// The grants after revoking `p` from plugin `id`.
pub open spec fn revoke_spec(g: GrantsView, id: Seq<char>, p: Permission) -> GrantsView {
    match first_index(g, grant_of(id)) {
        Some(i) => g.update(i, (g[i].0, g[i].1.filter(other_than(p)))),
        None => g,
    }
}

/// The grants after granting each of `ps` in turn to plugin `id`.
pub open spec fn grant_all_spec(g: GrantsView, id: Seq<char>, ps: Seq<Permission>) -> GrantsView
    decreases ps.len(),
{
    if ps.len() == 0 {
        g
    } else {
        grant_spec(grant_all_spec(g, id, ps.drop_last()), id, ps.last())
    }
}

/// A requested permission that plugin `id` lacks.
pub open spec fn lacking(g: GrantsView, id: Seq<char>) -> spec_fn(Permission) -> bool {
    |p: Permission| !perm_granted(g, id, p)
}

/// The enabled settings with plugin `id` set to `on`.
pub open spec fn set_flag(f: Seq<(Seq<char>, bool)>, id: Seq<char>, on: bool) -> Seq<(Seq<char>, bool)> {
    match first_index(f, flag_of(id)) {
        Some(i) => f.update(i, (id, on)),
        None => f.push((id, on)),
    }
}

/// The grants with plugin `id`'s permissions replaced by `perms`, or added.
pub open spec fn put_grant(g: GrantsView, id: Seq<char>, perms: Seq<Permission>) -> GrantsView {
    match first_index(g, grant_of(id)) {
        Some(i) => g.update(i, (id, perms)),
        None => g.push((id, perms)),
    }
}

/// The saved grants with each current grant put in place, in order.
pub open spec fn merge_grants(saved: GrantsView, current: GrantsView) -> GrantsView
    decreases current.len(),
{
    if current.len() == 0 {
        saved
    } else {
        put_grant(merge_grants(saved, current.drop_last()), current.last().0, current.last().1)
    }
}

/// Whether a plugin starts enabled: as saved, and enabled when nothing was
/// saved.
pub open spec fn saved_flag(f: Seq<(Seq<char>, bool)>, id: Seq<char>) -> bool {
    match first_index(f, flag_of(id)) {
        Some(i) => f[i].1,
        None => true,
    }
}

/// Granting `p` to `id` grants exactly that and leaves every other grant as
/// it was.
pub proof fn lemma_grant_effect(g: GrantsView, id: Seq<char>, p: Permission, id2: Seq<char>, p2: Permission)
    ensures
        perm_granted(grant_spec(g, id, p), id2, p2) == (perm_granted(g, id2, p2) || (id2 == id && p2 == p)),
{
    let f = grant_of(id);
    let f2 = grant_of(id2);
    lemma_first_index_found(g, f);
    lemma_first_index_found(g, f2);
    match first_index(g, f) {
        Some(i) => {
            if !g[i].1.contains(p) {
                let x = (g[i].0, g[i].1.push(p));
                lemma_first_index_update(g, i, x, f2);
                let g2 = g.update(i, x);
                if let Some(j) = first_index(g, f2) {
                    if j == i {
                        assert(g2[i].1.contains(p2) == (g[i].1.contains(p2) || p2 == p)) by {
                            assert(g[i].1.push(p).last() == p);
                            if g[i].1.contains(p2) {
                                let k = choose|k: int| 0 <= k < g[i].1.len() && g[i].1[k] == p2;
                                assert(g[i].1.push(p)[k] == p2);
                            }
                            if g2[i].1.contains(p2) && p2 != p {
                                let k = choose|k: int| 0 <= k < g2[i].1.len() && g2[i].1[k] == p2;
                                assert(g[i].1[k] == p2);
                            }
                        }
                    }
                }
            }
        },
        None => {
            let x = (id, seq![p]);
            lemma_first_index_push(g, x, f2);
            let g2 = g.push(x);
            if first_index(g, f2) is None && id2 == id {
                assert(g2[g.len() as int] == x);
                assert(seq![p].contains(p2) == (p2 == p)) by {
                    if p2 == p {
                        assert(seq![p][0] == p);
                    }
                }
            }
            if let Some(j) = first_index(g, f2) {
                assert(g2[j] == g[j]);
            }
        },
    }
}

/// Revoking `p` from `id` removes exactly that grant.
pub proof fn lemma_revoke_effect(g: GrantsView, id: Seq<char>, p: Permission, id2: Seq<char>, p2: Permission)
    ensures
        perm_granted(revoke_spec(g, id, p), id2, p2) == (perm_granted(g, id2, p2) && !(id2 == id && p2 == p)),
{
    let f = grant_of(id);
    let f2 = grant_of(id2);
    lemma_first_index_found(g, f);
    lemma_first_index_found(g, f2);
    if let Some(i) = first_index(g, f) {
        let keep = other_than(p);
        let x = (g[i].0, g[i].1.filter(keep));
        lemma_first_index_update(g, i, x, f2);
        if let Some(j) = first_index(g, f2) {
            assert(revoke_spec(g, id, p) == g.update(i, x));
            if j != i {
                assert(g.update(i, x)[j] == g[j]);
            }
            if j == i {
                let fl = g[i].1.filter(keep);
                if fl.contains(p2) {
                    let k = choose|k: int| 0 <= k < fl.len() && fl[k] == p2;
                    g[i].1.lemma_filter_pred(keep, k);
                    g[i].1.lemma_filter_contains_rev(keep, p2);
                }
                if g[i].1.contains(p2) && p2 != p {
                    let k = choose|k: int| 0 <= k < g[i].1.len() && g[i].1[k] == p2;
                    g[i].1.lemma_filter_contains(keep, k);
                }
            }
        }
    }
}

/// After granting every requested permission, each of them is granted.
pub proof fn lemma_grant_all_effect(g: GrantsView, id: Seq<char>, ps: Seq<Permission>)
    ensures
        forall|k: int| 0 <= k < ps.len() ==> perm_granted(grant_all_spec(g, id, ps), id, #[trigger] ps[k]),
    decreases ps.len(),
{
    if ps.len() > 0 {
        let rest = ps.drop_last();
        lemma_grant_all_effect(g, id, rest);
        let before = grant_all_spec(g, id, rest);
        assert forall|k: int| 0 <= k < ps.len() implies perm_granted(grant_all_spec(g, id, ps), id, #[trigger] ps[k]) by {
            lemma_grant_effect(before, id, ps.last(), id, ps[k]);
            if k < rest.len() {
                assert(rest[k] == ps[k]);
            }
        }
    }
}

/// Once every requested permission is granted, the permission check finds
/// none lacking.
pub proof fn lemma_grant_all_then_check(g: GrantsView, id: Seq<char>, ps: Seq<Permission>)
    ensures
        first_index(ps, lacking(grant_all_spec(g, id, ps), id)) is None,
{
    let g2 = grant_all_spec(g, id, ps);
    lemma_grant_all_effect(g, id, ps);
    assert forall|j: int| 0 <= j < ps.len() implies !lacking(g2, id)(#[trigger] ps[j]) by {}
    lemma_first_index_at(ps, lacking(g2, id), ps.len() as int);
}

fn find_grant(g: &Vec<(String, Vec<Permission>)>, id: &str) -> (r: Option<usize>)
    ensures
        r matches Some(i) ==> i < g@.len() && first_index(grants_view(g@), grant_of(id@)) == Some(i as int),
        r is None ==> first_index(grants_view(g@), grant_of(id@)) is None,
{
    let ghost v = grants_view(g@);
    let ghost pred = grant_of(id@);
    let mut i: usize = 0;
    while i < g.len()
        invariant
            i <= g@.len(),
            v == grants_view(g@),
            pred == grant_of(id@),
            forall|j: int| 0 <= j < i ==> !pred(#[trigger] v[j]),
        decreases g@.len() - i,
    {
        if str_equal(g[i].0.as_str(), id) {
            proof {
                lemma_first_index_at(v, pred, i as int);
            }
            return Some(i);
        }
        i = i + 1;
    }
    proof {
        lemma_first_index_at(v, pred, i as int);
    }
    None
}

fn find_flag(f: &Vec<(String, bool)>, id: &str) -> (r: Option<usize>)
    ensures
        r matches Some(i) ==> i < f@.len() && first_index(flags_view(f@), flag_of(id@)) == Some(i as int),
        r is None ==> first_index(flags_view(f@), flag_of(id@)) is None,
{
    let ghost v = flags_view(f@);
    let ghost pred = flag_of(id@);
    let mut i: usize = 0;
    while i < f.len()
        invariant
            i <= f@.len(),
            v == flags_view(f@),
            pred == flag_of(id@),
            forall|j: int| 0 <= j < i ==> !pred(#[trigger] v[j]),
        decreases f@.len() - i,
    {
        if str_equal(f[i].0.as_str(), id) {
            proof {
                lemma_first_index_at(v, pred, i as int);
            }
            return Some(i);
        }
        i = i + 1;
    }
    proof {
        lemma_first_index_at(v, pred, i as int);
    }
    None
}

fn contains_perm(v: &Vec<Permission>, p: Permission) -> (r: bool)
    ensures
        r == v@.contains(p),
{
    let mut i: usize = 0;
    while i < v.len()
        invariant
            i <= v@.len(),
            forall|j: int| 0 <= j < i ==> v@[j] != p,
        decreases v@.len() - i,
    {
        if v[i] == p {
            return true;
        }
        i = i + 1;
    }
    false
}

fn copy_perms(v: &Vec<Permission>) -> (r: Vec<Permission>)
    ensures
        r@ == v@,
{
    let mut out: Vec<Permission> = Vec::new();
    let mut i: usize = 0;
    while i < v.len()
        invariant
            i <= v@.len(),
            out@ == v@.take(i as int),
        decreases v@.len() - i,
    {
        out.push(v[i]);
        i = i + 1;
        assert(out@ =~= v@.take(i as int));
    }
    assert(v@.take(v@.len() as int) =~= v@);
    out
}

fn copy_grants(g: &Vec<(String, Vec<Permission>)>) -> (r: Vec<(String, Vec<Permission>)>)
    ensures
        grants_view(r@) == grants_view(g@),
{
    let mut out: Vec<(String, Vec<Permission>)> = Vec::new();
    let mut i: usize = 0;
    while i < g.len()
        invariant
            i <= g@.len(),
            grants_view(out@) == grants_view(g@).take(i as int),
        decreases g@.len() - i,
    {
        let ghost before = grants_view(out@);
        out.push((owned(g[i].0.as_str()), copy_perms(&g[i].1)));
        assert(grants_view(out@) =~= before.push((g@[i as int].0@, g@[i as int].1@)));
        i = i + 1;
        assert(grants_view(out@) =~= grants_view(g@).take(i as int));
    }
    assert(grants_view(g@).take(g@.len() as int) =~= grants_view(g@));
    out
}

fn copy_flags(f: &Vec<(String, bool)>) -> (r: Vec<(String, bool)>)
    ensures
        flags_view(r@) == flags_view(f@),
{
    let mut out: Vec<(String, bool)> = Vec::new();
    let mut i: usize = 0;
    while i < f.len()
        invariant
            i <= f@.len(),
            flags_view(out@) == flags_view(f@).take(i as int),
        decreases f@.len() - i,
    {
        let ghost before = flags_view(out@);
        out.push((owned(f[i].0.as_str()), f[i].1));
        assert(flags_view(out@) =~= before.push((f@[i as int].0@, f@[i as int].1)));
        i = i + 1;
        assert(flags_view(out@) =~= flags_view(f@).take(i as int));
    }
    assert(flags_view(f@).take(f@.len() as int) =~= flags_view(f@));
    out
}

fn grant_in(g: &mut Vec<(String, Vec<Permission>)>, id: &str, p: Permission)
    ensures
        grants_view(final(g)@) == grant_spec(grants_view(old(g)@), id@, p),
{
    let ghost before = grants_view(g@);
    match find_grant(g, id) {
        Some(i) => {
            proof {
                lemma_first_index_found(before, grant_of(id@));
            }
            if !contains_perm(&g[i].1, p) {
                let (name, mut perms) = g.remove(i);
                perms.push(p);
                g.insert(i, (name, perms));
                assert(grants_view(g@) =~= before.update(i as int, (before[i as int].0, before[i as int].1.push(p))));
            }
        },
        None => {
            let mut perms: Vec<Permission> = Vec::new();
            perms.push(p);
            g.push((owned(id), perms));
            assert(grants_view(g@) =~= before.push((id@, seq![p])));
        },
    }
}

fn retain_other_perms(v: &mut Vec<Permission>, p: Permission)
    ensures
        final(v)@ == old(v)@.filter(other_than(p)),
{
    let ghost orig = v@;
    let ghost pred = other_than(p);
    let mut rest: Vec<Permission> = Vec::new();
    std::mem::swap(&mut rest, v);
    let mut i: usize = 0;
    while i < rest.len()
        invariant
            i <= rest@.len(),
            rest@ == orig,
            v@ == orig.take(i as int).filter(pred),
            pred == other_than(p),
        decreases rest@.len() - i,
    {
        proof {
            lemma_filter_take_step(orig, pred, i as int);
        }
        if rest[i] != p {
            v.push(rest[i]);
        }
        i = i + 1;
    }
    proof {
        lemma_filter_take_all(orig, pred);
    }
}

/// Keeps track of plugins, whether each is enabled, and the permissions
/// granted to them.
pub struct PluginManager {
    plugins_dir: String,
    registered: Vec<PluginMetadata>,
    enabled: Vec<bool>,
    config: PluginConfig,
    granted: Vec<(String, Vec<Permission>)>,
}

impl PluginManager {
    /// The registered plugins, in order of registration.
    pub closed spec fn plugins(&self) -> Seq<PluginMetadata> {
        self.registered@
    }

    /// Whether each registered plugin is enabled.
    pub closed spec fn flags(&self) -> Seq<bool> {
        self.enabled@
    }

    /// The granted permissions.
    pub closed spec fn grants(&self) -> GrantsView {
        grants_view(self.granted@)
    }

    /// The enabled settings to be saved.
    pub closed spec fn saved_flags(&self) -> Seq<(Seq<char>, bool)> {
        flags_view(self.config.enabled@)
    }

    /// The grants saved with the settings.
    pub closed spec fn saved_grants(&self) -> GrantsView {
        grants_view(self.config.granted_permissions@)
    }

    /// The folder the plugins live in.
    pub closed spec fn dir(&self) -> Seq<char> {
        self.plugins_dir@
    }

    /// Every registered plugin has its flag: flag `i` belongs to plugin `i`.
    pub open spec fn wf(&self) -> bool {
        self.plugins().len() == self.flags().len()
    }

    /// A manager for the plugins in `plugins_dir`, with the saved settings
    /// `config` and nothing registered.
    pub fn new(plugins_dir: String, config: PluginConfig) -> (r: PluginManager)
        ensures
            r.wf(),
            r.plugins().len() == 0,
            r.flags().len() == 0,
            r.grants() == grants_view(config.granted_permissions@),
            r.saved_flags() == flags_view(config.enabled@),
            r.saved_grants() == grants_view(config.granted_permissions@),
            r.dir() == plugins_dir@,
    {
        let granted = copy_grants(&config.granted_permissions);
        PluginManager { plugins_dir, registered: Vec::new(), enabled: Vec::new(), config, granted }
    }

    /// Registers a plugin, enabled as saved, or enabled when nothing was
    /// saved for it.
    pub fn register(&mut self, metadata: PluginMetadata)
        requires
            old(self).wf(),
        ensures
            final(self).wf(),
            final(self).plugins() == old(self).plugins().push(metadata),
            final(self).flags() == old(self).flags().push(saved_flag(old(self).saved_flags(), metadata.id@)),
            final(self).grants() == old(self).grants(),
            final(self).saved_flags() == old(self).saved_flags(),
            final(self).saved_grants() == old(self).saved_grants(),
    {
        let on = match find_flag(&self.config.enabled, metadata.id.as_str()) {
            Some(i) => {
                proof {
                    lemma_first_index_found(flags_view(self.config.enabled@), flag_of(metadata.id@));
                }
                self.config.enabled[i].1
            },
            None => true,
        };
        self.registered.push(metadata);
        self.enabled.push(on);
    }

    /// Whether plugin `plugin_id` was granted `permission`.
    pub fn has_permission(&self, plugin_id: &str, permission: Permission) -> (r: bool)
        ensures
            r == perm_granted(self.grants(), plugin_id@, permission),
    {
        match find_grant(&self.granted, plugin_id) {
            Some(i) => {
                proof {
                    lemma_first_index_found(self.grants(), grant_of(plugin_id@));
                }
                contains_perm(&self.granted[i].1, permission)
            },
            None => false,
        }
    }

    /// Grants `permission` to plugin `plugin_id`.
    pub fn grant_permission(&mut self, plugin_id: &str, permission: Permission)
        requires
            old(self).wf(),
        ensures
            final(self).wf(),
            final(self).grants() == grant_spec(old(self).grants(), plugin_id@, permission),
            final(self).plugins() == old(self).plugins(),
            final(self).flags() == old(self).flags(),
            final(self).saved_flags() == old(self).saved_flags(),
            final(self).saved_grants() == old(self).saved_grants(),
    {
        grant_in(&mut self.granted, plugin_id, permission);
    }

    /// Revokes `permission` from plugin `plugin_id`.
    pub fn revoke_permission(&mut self, plugin_id: &str, permission: Permission)
        requires
            old(self).wf(),
        ensures
            final(self).wf(),
            final(self).grants() == revoke_spec(old(self).grants(), plugin_id@, permission),
            final(self).plugins() == old(self).plugins(),
            final(self).flags() == old(self).flags(),
            final(self).saved_flags() == old(self).saved_flags(),
            final(self).saved_grants() == old(self).saved_grants(),
    {
        let ghost before = grants_view(self.granted@);
        match find_grant(&self.granted, plugin_id) {
            Some(i) => {
                proof {
                    lemma_first_index_found(before, grant_of(plugin_id@));
                }
                let (name, mut perms) = self.granted.remove(i);
                retain_other_perms(&mut perms, permission);
                self.granted.insert(i, (name, perms));
                assert(grants_view(self.granted@) =~= before.update(
                    i as int,
                    (before[i as int].0, before[i as int].1.filter(other_than(permission))),
                ));
            },
            None => {},
        }
    }

    /// Checks that the plugin was granted every permission it requests; the
    /// first one missing is reported.
    pub fn check_permissions(&self, metadata: &PluginMetadata) -> (r: Result<(), PluginError>)
        ensures
            match first_index(metadata.permissions@, lacking(self.grants(), metadata.id@)) {
                Some(k) => r matches Err(PluginError::PermissionDenied { plugin, permission }) && plugin@
                    == metadata.id@ && permission == metadata.permissions@[k],
                None => r is Ok,
            },
    {
        let ghost pred = lacking(self.grants(), metadata.id@);
        let mut i: usize = 0;
        while i < metadata.permissions.len()
            invariant
                i <= metadata.permissions@.len(),
                pred == lacking(self.grants(), metadata.id@),
                forall|j: int| 0 <= j < i ==> !pred(#[trigger] metadata.permissions@[j]),
            decreases metadata.permissions@.len() - i,
        {
            let perm = metadata.permissions[i];
            if !self.has_permission(metadata.id.as_str(), perm) {
                proof {
                    lemma_first_index_at(metadata.permissions@, pred, i as int);
                }
                return Err(PluginError::PermissionDenied { plugin: owned(metadata.id.as_str()), permission: perm });
            }
            i = i + 1;
        }
        proof {
            lemma_first_index_at(metadata.permissions@, pred, i as int);
        }
        Ok(())
    }

    /// Grants every permission that a plugin requests.
    pub fn grant_all_requested(&mut self, metadata: &PluginMetadata)
        requires
            old(self).wf(),
        ensures
            final(self).wf(),
            final(self).grants() == grant_all_spec(old(self).grants(), metadata.id@, metadata.permissions@),
            final(self).plugins() == old(self).plugins(),
            final(self).flags() == old(self).flags(),
            final(self).saved_flags() == old(self).saved_flags(),
            final(self).saved_grants() == old(self).saved_grants(),
    {
        let ghost g0 = self.grants();
        let mut i: usize = 0;
        while i < metadata.permissions.len()
            invariant
                i <= metadata.permissions@.len(),
                self.wf(),
                self.grants() == grant_all_spec(g0, metadata.id@, metadata.permissions@.take(i as int)),
                self.plugins() == old(self).plugins(),
                self.flags() == old(self).flags(),
                self.saved_flags() == old(self).saved_flags(),
                self.saved_grants() == old(self).saved_grants(),
            decreases metadata.permissions@.len() - i,
        {
            proof {
                let ps = metadata.permissions@;
                assert(ps.take(i + 1).drop_last() =~= ps.take(i as int));
                assert(ps.take(i + 1).last() == ps[i as int]);
            }
            self.grant_permission(metadata.id.as_str(), metadata.permissions[i]);
            i = i + 1;
        }
        assert(metadata.permissions@.take(metadata.permissions@.len() as int) =~= metadata.permissions@);
    }

    /// Enables or disables every registered plugin with id `plugin_id`, and
    /// saves the choice.
    pub fn set_enabled(&mut self, plugin_id: &str, enabled: bool)
        requires
            old(self).wf(),
        ensures
            final(self).wf(),
            final(self).plugins() == old(self).plugins(),
            final(self).flags() == flags_after(old(self).plugins(), old(self).flags(), plugin_id@, enabled),
            final(self).saved_flags() == set_flag(old(self).saved_flags(), plugin_id@, enabled),
            final(self).saved_grants() == old(self).saved_grants(),
            final(self).grants() == old(self).grants(),
    {
        let ghost flags0 = self.enabled@;
        let mut i: usize = 0;
        while i < self.registered.len()
            invariant
                self.wf(),
                i <= self.registered@.len(),
                self.registered@ == old(self).registered@,
                flags0 == old(self).enabled@,
                self.config.enabled@ == old(self).config.enabled@,
                self.config.granted_permissions@ == old(self).config.granted_permissions@,
                self.granted@ == old(self).granted@,
                forall|j: int| 0 <= j < i ==> self.enabled@[j] == (if self.registered@[j].id@ == plugin_id@ { enabled } else { flags0[j] }),
                forall|j: int| i <= j < self.enabled@.len() ==> self.enabled@[j] == flags0[j],
            decreases self.registered@.len() - i,
        {
            if str_equal(self.registered[i].id.as_str(), plugin_id) {
                self.enabled.set(i, enabled);
            }
            i = i + 1;
        }
        assert(self.enabled@ =~= Seq::new(
            flags0.len(),
            |j: int| if old(self).registered@[j].id@ == plugin_id@ { enabled } else { flags0[j] },
        ));
        let ghost before = flags_view(self.config.enabled@);
        match find_flag(&self.config.enabled, plugin_id) {
            Some(k) => {
                self.config.enabled.set(k, (owned(plugin_id), enabled));
                assert(flags_view(self.config.enabled@) =~= before.update(k as int, (plugin_id@, enabled)));
            },
            None => {
                self.config.enabled.push((owned(plugin_id), enabled));
                assert(flags_view(self.config.enabled@) =~= before.push((plugin_id@, enabled)));
            },
        }
    }

    /// Whether the first registered plugin with id `plugin_id` is enabled;
    /// false when there is none.
    pub fn is_enabled(&self, plugin_id: &str) -> (r: bool)
        requires
            self.wf(),
        ensures
            r == enabled_of(self.plugins(), self.flags(), plugin_id@),
    {
        let ghost pred = plugin_of(plugin_id@);
        let mut i: usize = 0;
        while i < self.registered.len()
            invariant
                i <= self.registered@.len(),
                self.wf(),
                pred == plugin_of(plugin_id@),
                forall|j: int| 0 <= j < i ==> !pred(#[trigger] self.registered@[j]),
            decreases self.registered@.len() - i,
        {
            if str_equal(self.registered[i].id.as_str(), plugin_id) {
                proof {
                    lemma_first_index_at(self.registered@, pred, i as int);
                }
                return self.enabled[i];
            }
            i = i + 1;
        }
        proof {
            lemma_first_index_at(self.registered@, pred, i as int);
        }
        false
    }

    /// Every registered plugin with whether it is enabled.
    pub fn list_plugins(&self) -> (r: Vec<(&PluginMetadata, bool)>)
        requires
            self.wf(),
        ensures
            r@.len() == self.plugins().len(),
            forall|j: int| 0 <= j < r@.len() ==> *(#[trigger] r@[j]).0 == self.plugins()[j] && r@[j].1 == self.flags()[j],
    {
        let mut out: Vec<(&PluginMetadata, bool)> = Vec::new();
        let mut i: usize = 0;
        while i < self.registered.len()
            invariant
                i <= self.registered@.len(),
                self.wf(),
                out@.len() == i,
                forall|j: int| 0 <= j < i ==> *(#[trigger] out@[j]).0 == self.registered@[j] && out@[j].1 == self.enabled@[j],
            decreases self.registered@.len() - i,
        {
            out.push((&self.registered[i], self.enabled[i]));
            i = i + 1;
        }
        out
    }

    /// The enabled plugins of a kind, in order of registration.
    pub fn plugins_of_type(&self, plugin_type: PluginType) -> (r: Vec<&PluginMetadata>)
        requires
            self.wf(),
        ensures
            r@.map_values(|m: &PluginMetadata| *m) == Seq::new(self.plugins().len(), |j: int| (self.plugins()[j], self.flags()[j])).filter(
                |e: (PluginMetadata, bool)| e.1 && e.0.plugin_type == plugin_type,
            ).map_values(|e: (PluginMetadata, bool)| e.0),
    {
        let ghost z = Seq::new(self.registered@.len(), |j: int| (self.registered@[j], self.enabled@[j]));
        let ghost pred = |e: (PluginMetadata, bool)| e.1 && e.0.plugin_type == plugin_type;
        let mut out: Vec<&PluginMetadata> = Vec::new();
        let mut i: usize = 0;
        while i < self.registered.len()
            invariant
                i <= self.registered@.len(),
                self.wf(),
                z == Seq::new(self.registered@.len(), |j: int| (self.registered@[j], self.enabled@[j])),
                pred == (|e: (PluginMetadata, bool)| e.1 && e.0.plugin_type == plugin_type),
                out@.map_values(|m: &PluginMetadata| *m) == z.take(i as int).filter(pred).map_values(
                    |e: (PluginMetadata, bool)| e.0,
                ),
            decreases self.registered@.len() - i,
        {
            proof {
                lemma_filter_take_step(z, pred, i as int);
            }
            if self.enabled[i] && self.registered[i].plugin_type == plugin_type {
                let ghost before = out@;
                out.push(&self.registered[i]);
                assert(out@.map_values(|m: &PluginMetadata| *m) =~= before.map_values(|m: &PluginMetadata| *m).push(
                    self.registered@[i as int],
                ));
                assert(z.take(i + 1).filter(pred).map_values(|e: (PluginMetadata, bool)| e.0) =~= z.take(
                    i as int,
                ).filter(pred).map_values(|e: (PluginMetadata, bool)| e.0).push(self.registered@[i as int]));
            }
            i = i + 1;
        }
        proof {
            lemma_filter_take_all(z, pred);
        }
        out
    }

    /// Number of registered plugins.
    pub fn plugin_count(&self) -> (r: usize)
        ensures
            r == self.plugins().len(),
    {
        self.registered.len()
    }

    /// Number of enabled plugins.
    pub fn enabled_count(&self) -> (r: usize)
        requires
            self.wf(),
        ensures
            r == self.flags().filter(|b: bool| b).len(),
    {
        let ghost pred = |b: bool| b;
        let mut n: usize = 0;
        let mut i: usize = 0;
        while i < self.enabled.len()
            invariant
                i <= self.enabled@.len(),
                n <= i,
                pred == (|b: bool| b),
                n == self.enabled@.take(i as int).filter(pred).len(),
            decreases self.enabled@.len() - i,
        {
            proof {
                lemma_filter_take_step(self.enabled@, pred, i as int);
            }
            if self.enabled[i] {
                n = n + 1;
            }
            i = i + 1;
        }
        proof {
            lemma_filter_take_all(self.enabled@, pred);
        }
        n
    }

    /// The settings to save: the enabled settings, and the saved grants with
    /// the current grants of each plugin put in place.
    pub fn config_to_save(&self) -> (r: PluginConfig)
        ensures
            flags_view(r.enabled@) == self.saved_flags(),
            grants_view(r.granted_permissions@) == merge_grants(self.saved_grants(), self.grants()),
    {
        let enabled = copy_flags(&self.config.enabled);
        let mut saved = copy_grants(&self.config.granted_permissions);
        let ghost base = grants_view(self.config.granted_permissions@);
        let ghost cur = self.grants();
        let mut i: usize = 0;
        while i < self.granted.len()
            invariant
                i <= self.granted@.len(),
                cur == grants_view(self.granted@),
                base == grants_view(self.config.granted_permissions@),
                grants_view(saved@) == merge_grants(base, cur.take(i as int)),
            decreases self.granted@.len() - i,
        {
            proof {
                assert(cur.take(i + 1).drop_last() =~= cur.take(i as int));
                assert(cur.take(i + 1).last() == cur[i as int]);
            }
            let ghost before = grants_view(saved@);
            let id = self.granted[i].0.as_str();
            let perms = copy_perms(&self.granted[i].1);
            match find_grant(&saved, id) {
                Some(k) => {
                    saved.set(k, (owned(id), perms));
                    assert(grants_view(saved@) =~= before.update(k as int, (cur[i as int].0, cur[i as int].1)));
                },
                None => {
                    saved.push((owned(id), perms));
                    assert(grants_view(saved@) =~= before.push((cur[i as int].0, cur[i as int].1)));
                },
            }
            i = i + 1;
        }
        assert(cur.take(self.granted@.len() as int) =~= cur);
        PluginConfig { enabled, granted_permissions: saved }
    }
}


/// A choice to enable or disable a plugin is what the plugin starts with
/// the next time it is registered from the saved settings.
pub proof fn lemma_saved_choice_applies(f: Seq<(Seq<char>, bool)>, id: Seq<char>, on: bool)
    ensures
        saved_flag(set_flag(f, id, on), id) == on,
{
    lemma_first_index_found(f, flag_of(id));
    match first_index(f, flag_of(id)) {
        Some(i) => {
            lemma_first_index_update(f, i, (id, on), flag_of(id));
        },
        None => {
            lemma_first_index_push(f, (id, on), flag_of(id));
        },
    }
}

/// The flags after setting every registered plugin with id `id` to `on`.
pub open spec fn flags_after(plugins: Seq<PluginMetadata>, flags: Seq<bool>, id: Seq<char>, on: bool) -> Seq<bool> {
    Seq::new(flags.len(), |j: int| if plugins[j].id@ == id { on } else { flags[j] })
}

/// Whether the first registered plugin with id `id` is enabled, given each
/// registered plugin's flag.
pub open spec fn enabled_of(plugins: Seq<PluginMetadata>, flags: Seq<bool>, id: Seq<char>) -> bool {
    match first_index(plugins, plugin_of(id)) {
        Some(i) => flags[i],
        None => false,
    }
}

/// After enabling or disabling a registered plugin, it reads as enabled
/// exactly when it was enabled.
pub proof fn lemma_set_then_enabled(plugins: Seq<PluginMetadata>, flags: Seq<bool>, id: Seq<char>, on: bool)
    requires
        flags.len() == plugins.len(),
        first_index(plugins, plugin_of(id)) is Some,
    ensures
        enabled_of(plugins, flags_after(plugins, flags, id, on), id) == on,
{
    lemma_first_index_found(plugins, plugin_of(id));
}


/// No plugin has two entries among the grants.
pub open spec fn distinct_grant_ids(g: GrantsView) -> bool {
    forall|i: int, j: int| 0 <= i < j < g.len() ==> #[trigger] g[i].0 != #[trigger] g[j].0
}

/// Plugin `id` has an entry among the grants.
pub open spec fn has_grant_entry(g: GrantsView, id: Seq<char>) -> bool {
    first_index(g, grant_of(id)) is Some
}

proof fn lemma_put_grant_effect(g: GrantsView, id: Seq<char>, perms: Seq<Permission>, id2: Seq<char>, p: Permission)
    ensures
        perm_granted(put_grant(g, id, perms), id2, p) == (if id2 == id {
            perms.contains(p)
        } else {
            perm_granted(g, id2, p)
        }),
{
    lemma_first_index_found(g, grant_of(id));
    lemma_first_index_found(g, grant_of(id2));
    let t = put_grant(g, id, perms);
    match first_index(g, grant_of(id)) {
        Some(i) => {
            lemma_first_index_update(g, i, (id, perms), grant_of(id2));
            if id2 != id {
                match first_index(g, grant_of(id2)) {
                    Some(k) => {
                        assert(k != i);
                        assert(t[k] == g[k]);
                    },
                    None => {},
                }
            }
        },
        None => {
            lemma_first_index_push(g, (id, perms), grant_of(id2));
            match first_index(g, grant_of(id2)) {
                Some(k) => {
                    assert(t[k] == g[k]);
                },
                None => {},
            }
        },
    }
}

/// Saving and loading the plugin settings keeps what was granted: after the
/// current grants are put into the saved ones, a plugin with current grants
/// has exactly those, and any other plugin has what was saved for it.
pub proof fn lemma_saved_grants_persist(saved: GrantsView, cur: GrantsView, id: Seq<char>, p: Permission)
    requires
        distinct_grant_ids(cur),
    ensures
        perm_granted(merge_grants(saved, cur), id, p) == (if has_grant_entry(cur, id) {
            perm_granted(cur, id, p)
        } else {
            perm_granted(saved, id, p)
        }),
    decreases cur.len(),
{
    if cur.len() > 0 {
        let init = cur.drop_last();
        let x = cur.last();
        assert forall|i: int, j: int| 0 <= i < j < init.len() implies #[trigger] init[i].0 != #[trigger] init[j].0 by {
            assert(init[i] == cur[i] && init[j] == cur[j]);
        }
        lemma_saved_grants_persist(saved, init, id, p);
        lemma_put_grant_effect(merge_grants(saved, init), x.0, x.1, id, p);
        assert(cur == init.push(x));
        lemma_first_index_push(init, x, grant_of(id));
        lemma_first_index_found(init, grant_of(id));
        if id == x.0 {
            match first_index(init, grant_of(id)) {
                Some(k) => {
                    assert(init[k] == cur[k]);
                    assert(cur[k].0 == cur[cur.len() - 1].0);
                    assert(false);
                },
                None => {},
            }
        }
    } else {
        lemma_first_index_found(cur, grant_of(id));
    }
}

} // verus!
