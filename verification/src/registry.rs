//! The asset-bind command group: the registry entry the process installs at
//! start-up.
//!
//! One top-level `assetbinds` command (alias `ab`) at `Admin` level, with
//! `view`, `new`, `modify` (alias `m`, itself holding `priority`, `template`,
//! `add-roles` and `remove-roles`) and `delete` (aliases `d`, `remove`)
//! beneath it. The group itself falls through to the view handler when no
//! sub-command token follows. Handlers are named by key; the surrounding
//! process maps each key to its implementation.

use vstd::prelude::*;
use vstd::slice::slice_to_vec;
use crate::arguments::{FieldSpec, FieldSpecView, FieldType, specs_view};
use crate::command::{Command, CommandView, RoLevel, cmd_view, cmds_view, lemma_cmds_view_len, lemma_cmds_view_index, name_matches, names_disjoint};
use crate::text::{lower_seq, lower_byte, eq_ignore_case};

verus! {

/// Handler key of the asset-bind view handler.
pub const HANDLER_ASSETBINDS_VIEW: u64 = 1;

/// Handler key of the asset-bind creation handler.
pub const HANDLER_ASSETBINDS_NEW: u64 = 2;

/// Handler key of the priority-modification handler.
pub const HANDLER_AB_MODIFY_PRIORITY: u64 = 3;

/// Handler key of the template-modification handler.
pub const HANDLER_AB_MODIFY_TEMPLATE: u64 = 4;

/// Handler key of the role-addition handler.
pub const HANDLER_AB_ADD_ROLES: u64 = 5;

/// Handler key of the role-removal handler.
pub const HANDLER_AB_REMOVE_ROLES: u64 = 6;

/// Handler key of the asset-bind deletion handler.
pub const HANDLER_ASSETBINDS_DELETE: u64 = 7;

/// `assetbinds`
pub open spec fn n_assetbinds() -> Seq<u8> {
    seq![
        97u8, 115u8, 115u8, 101u8, 116u8, 98u8, 105u8, 110u8, 100u8, 115u8,
    ]
}

/// Builds [`n_assetbinds`] as bytes.
pub fn w_assetbinds() -> (r: Vec<u8>)
    ensures
        r@ == n_assetbinds(),
{
    let a: [u8; 10] = [
        97u8, 115u8, 115u8, 101u8, 116u8, 98u8, 105u8, 110u8, 100u8, 115u8,
    ];
    let r = slice_to_vec(a.as_slice());
    proof {
        assert(r@ =~= n_assetbinds());
    }
    r
}

/// `ab`
pub open spec fn n_ab() -> Seq<u8> {
    seq![
        97u8, 98u8,
    ]
}

/// Builds [`n_ab`] as bytes.
pub fn w_ab() -> (r: Vec<u8>)
    ensures
        r@ == n_ab(),
{
    let a: [u8; 2] = [
        97u8, 98u8,
    ];
    let r = slice_to_vec(a.as_slice());
    proof {
        assert(r@ =~= n_ab());
    }
    r
}

/// `view`
pub open spec fn n_view() -> Seq<u8> {
    seq![
        118u8, 105u8, 101u8, 119u8,
    ]
}

/// Builds [`n_view`] as bytes.
pub fn w_view() -> (r: Vec<u8>)
    ensures
        r@ == n_view(),
{
    let a: [u8; 4] = [
        118u8, 105u8, 101u8, 119u8,
    ];
    let r = slice_to_vec(a.as_slice());
    proof {
        assert(r@ =~= n_view());
    }
    r
}

/// `new`
pub open spec fn n_new() -> Seq<u8> {
    seq![
        110u8, 101u8, 119u8,
    ]
}

/// Builds [`n_new`] as bytes.
pub fn w_new() -> (r: Vec<u8>)
    ensures
        r@ == n_new(),
{
    let a: [u8; 3] = [
        110u8, 101u8, 119u8,
    ];
    let r = slice_to_vec(a.as_slice());
    proof {
        assert(r@ =~= n_new());
    }
    r
}

/// `modify`
pub open spec fn n_modify() -> Seq<u8> {
    seq![
        109u8, 111u8, 100u8, 105u8, 102u8, 121u8,
    ]
}

/// Builds [`n_modify`] as bytes.
pub fn w_modify() -> (r: Vec<u8>)
    ensures
        r@ == n_modify(),
{
    let a: [u8; 6] = [
        109u8, 111u8, 100u8, 105u8, 102u8, 121u8,
    ];
    let r = slice_to_vec(a.as_slice());
    proof {
        assert(r@ =~= n_modify());
    }
    r
}

/// `m`
pub open spec fn n_m() -> Seq<u8> {
    seq![
        109u8,
    ]
}

/// Builds [`n_m`] as bytes.
pub fn w_m() -> (r: Vec<u8>)
    ensures
        r@ == n_m(),
{
    let a: [u8; 1] = [
        109u8,
    ];
    let r = slice_to_vec(a.as_slice());
    proof {
        assert(r@ =~= n_m());
    }
    r
}

/// `priority`
pub open spec fn n_priority() -> Seq<u8> {
    seq![
        112u8, 114u8, 105u8, 111u8, 114u8, 105u8, 116u8, 121u8,
    ]
}

/// Builds [`n_priority`] as bytes.
pub fn w_priority() -> (r: Vec<u8>)
    ensures
        r@ == n_priority(),
{
    let a: [u8; 8] = [
        112u8, 114u8, 105u8, 111u8, 114u8, 105u8, 116u8, 121u8,
    ];
    let r = slice_to_vec(a.as_slice());
    proof {
        assert(r@ =~= n_priority());
    }
    r
}

/// `template`
pub open spec fn n_template() -> Seq<u8> {
    seq![
        116u8, 101u8, 109u8, 112u8, 108u8, 97u8, 116u8, 101u8,
    ]
}

/// Builds [`n_template`] as bytes.
pub fn w_template() -> (r: Vec<u8>)
    ensures
        r@ == n_template(),
{
    let a: [u8; 8] = [
        116u8, 101u8, 109u8, 112u8, 108u8, 97u8, 116u8, 101u8,
    ];
    let r = slice_to_vec(a.as_slice());
    proof {
        assert(r@ =~= n_template());
    }
    r
}

/// `add-roles`
pub open spec fn n_add_roles() -> Seq<u8> {
    seq![
        97u8, 100u8, 100u8, 45u8, 114u8, 111u8, 108u8, 101u8, 115u8,
    ]
}

/// Builds [`n_add_roles`] as bytes.
pub fn w_add_roles() -> (r: Vec<u8>)
    ensures
        r@ == n_add_roles(),
{
    let a: [u8; 9] = [
        97u8, 100u8, 100u8, 45u8, 114u8, 111u8, 108u8, 101u8, 115u8,
    ];
    let r = slice_to_vec(a.as_slice());
    proof {
        assert(r@ =~= n_add_roles());
    }
    r
}

/// `remove-roles`
pub open spec fn n_remove_roles() -> Seq<u8> {
    seq![
        114u8, 101u8, 109u8, 111u8, 118u8, 101u8, 45u8, 114u8, 111u8, 108u8, 101u8, 115u8,
    ]
}

/// Builds [`n_remove_roles`] as bytes.
pub fn w_remove_roles() -> (r: Vec<u8>)
    ensures
        r@ == n_remove_roles(),
{
    let a: [u8; 12] = [
        114u8, 101u8, 109u8, 111u8, 118u8, 101u8, 45u8, 114u8, 111u8, 108u8, 101u8, 115u8,
    ];
    let r = slice_to_vec(a.as_slice());
    proof {
        assert(r@ =~= n_remove_roles());
    }
    r
}

/// `delete`
pub open spec fn n_delete() -> Seq<u8> {
    seq![
        100u8, 101u8, 108u8, 101u8, 116u8, 101u8,
    ]
}

/// Builds [`n_delete`] as bytes.
pub fn w_delete() -> (r: Vec<u8>)
    ensures
        r@ == n_delete(),
{
    let a: [u8; 6] = [
        100u8, 101u8, 108u8, 101u8, 116u8, 101u8,
    ];
    let r = slice_to_vec(a.as_slice());
    proof {
        assert(r@ =~= n_delete());
    }
    r
}

/// `d`
pub open spec fn n_d() -> Seq<u8> {
    seq![
        100u8,
    ]
}

/// Builds [`n_d`] as bytes.
pub fn w_d() -> (r: Vec<u8>)
    ensures
        r@ == n_d(),
{
    let a: [u8; 1] = [
        100u8,
    ];
    let r = slice_to_vec(a.as_slice());
    proof {
        assert(r@ =~= n_d());
    }
    r
}

/// `remove`
pub open spec fn n_remove() -> Seq<u8> {
    seq![
        114u8, 101u8, 109u8, 111u8, 118u8, 101u8,
    ]
}

/// Builds [`n_remove`] as bytes.
pub fn w_remove() -> (r: Vec<u8>)
    ensures
        r@ == n_remove(),
{
    let a: [u8; 6] = [
        114u8, 101u8, 109u8, 111u8, 118u8, 101u8,
    ];
    let r = slice_to_vec(a.as_slice());
    proof {
        assert(r@ =~= n_remove());
    }
    r
}

/// `option`
pub open spec fn n_option() -> Seq<u8> {
    seq![
        111u8, 112u8, 116u8, 105u8, 111u8, 110u8,
    ]
}

/// Builds [`n_option`] as bytes.
pub fn w_option() -> (r: Vec<u8>)
    ensures
        r@ == n_option(),
{
    let a: [u8; 6] = [
        111u8, 112u8, 116u8, 105u8, 111u8, 110u8,
    ];
    let r = slice_to_vec(a.as_slice());
    proof {
        assert(r@ =~= n_option());
    }
    r
}

/// `asset_id`
pub open spec fn n_asset_id() -> Seq<u8> {
    seq![
        97u8, 115u8, 115u8, 101u8, 116u8, 95u8, 105u8, 100u8,
    ]
}

/// Builds [`n_asset_id`] as bytes.
pub fn w_asset_id() -> (r: Vec<u8>)
    ensures
        r@ == n_asset_id(),
{
    let a: [u8; 8] = [
        97u8, 115u8, 115u8, 101u8, 116u8, 95u8, 105u8, 100u8,
    ];
    let r = slice_to_vec(a.as_slice());
    proof {
        assert(r@ =~= n_asset_id());
    }
    r
}

/// `change`
pub open spec fn n_change() -> Seq<u8> {
    seq![
        99u8, 104u8, 97u8, 110u8, 103u8, 101u8,
    ]
}

/// Builds [`n_change`] as bytes.
pub fn w_change() -> (r: Vec<u8>)
    ensures
        r@ == n_change(),
{
    let a: [u8; 6] = [
        99u8, 104u8, 97u8, 110u8, 103u8, 101u8,
    ];
    let r = slice_to_vec(a.as_slice());
    proof {
        assert(r@ =~= n_change());
    }
    r
}

/// `discord_roles`
pub open spec fn n_discord_roles() -> Seq<u8> {
    seq![
        100u8, 105u8, 115u8, 99u8, 111u8, 114u8, 100u8, 95u8, 114u8, 111u8, 108u8, 101u8, 115u8,
    ]
}

/// Builds [`n_discord_roles`] as bytes.
pub fn w_discord_roles() -> (r: Vec<u8>)
    ensures
        r@ == n_discord_roles(),
{
    let a: [u8; 13] = [
        100u8, 105u8, 115u8, 99u8, 111u8, 114u8, 100u8, 95u8, 114u8, 111u8, 108u8, 101u8, 115u8,
    ];
    let r = slice_to_vec(a.as_slice());
    proof {
        assert(r@ =~= n_discord_roles());
    }
    r
}

/// `roles-add`
pub open spec fn n_roles_add() -> Seq<u8> {
    seq![
        114u8, 111u8, 108u8, 101u8, 115u8, 45u8, 97u8, 100u8, 100u8,
    ]
}

/// Builds [`n_roles_add`] as bytes.
pub fn w_roles_add() -> (r: Vec<u8>)
    ensures
        r@ == n_roles_add(),
{
    let a: [u8; 9] = [
        114u8, 111u8, 108u8, 101u8, 115u8, 45u8, 97u8, 100u8, 100u8,
    ];
    let r = slice_to_vec(a.as_slice());
    proof {
        assert(r@ =~= n_roles_add());
    }
    r
}

/// `roles-remove`
pub open spec fn n_roles_remove() -> Seq<u8> {
    seq![
        114u8, 111u8, 108u8, 101u8, 115u8, 45u8, 114u8, 101u8, 109u8, 111u8, 118u8, 101u8,
    ]
}

/// Builds [`n_roles_remove`] as bytes.
pub fn w_roles_remove() -> (r: Vec<u8>)
    ensures
        r@ == n_roles_remove(),
{
    let a: [u8; 12] = [
        114u8, 111u8, 108u8, 101u8, 115u8, 45u8, 114u8, 101u8, 109u8, 111u8, 118u8, 101u8,
    ];
    let r = slice_to_vec(a.as_slice());
    proof {
        assert(r@ =~= n_roles_remove());
    }
    r
}
/// Argument shape of `assetbinds new`: the asset type, the asset id, the
/// template, an optional priority, and the roles as trailing text.
pub open spec fn new_args() -> Seq<FieldSpecView> {
    seq![
        FieldSpecView { name: n_option(), ty: FieldType::Str, required: true, rest: false },
        FieldSpecView { name: n_asset_id(), ty: FieldType::Int, required: true, rest: false },
        FieldSpecView { name: n_template(), ty: FieldType::Str, required: true, rest: false },
        FieldSpecView { name: n_priority(), ty: FieldType::Int, required: false, rest: false },
        FieldSpecView { name: n_discord_roles(), ty: FieldType::Str, required: false, rest: true },
    ]
}

/// Builds [`new_args`].
fn build_new_args() -> (r: Vec<FieldSpec>)
    ensures
        specs_view(r@) == new_args(),
{
    let mut r: Vec<FieldSpec> = Vec::new();
    r.push(FieldSpec { name: w_option(), ty: FieldType::Str, required: true, rest: false });
    r.push(FieldSpec { name: w_asset_id(), ty: FieldType::Int, required: true, rest: false });
    r.push(FieldSpec { name: w_template(), ty: FieldType::Str, required: true, rest: false });
    r.push(FieldSpec { name: w_priority(), ty: FieldType::Int, required: false, rest: false });
    r.push(FieldSpec { name: w_discord_roles(), ty: FieldType::Str, required: false, rest: true });
    proof {
        assert(specs_view(r@) =~= new_args());
    }
    r
}

/// Argument shape of each `assetbinds modify` leaf: the asset id, then the
/// change as trailing text.
pub open spec fn modify_args() -> Seq<FieldSpecView> {
    seq![
        FieldSpecView { name: n_asset_id(), ty: FieldType::Int, required: true, rest: false },
        FieldSpecView { name: n_change(), ty: FieldType::Str, required: true, rest: true },
    ]
}

/// Builds [`modify_args`].
fn build_modify_args() -> (r: Vec<FieldSpec>)
    ensures
        specs_view(r@) == modify_args(),
{
    let mut r: Vec<FieldSpec> = Vec::new();
    r.push(FieldSpec { name: w_asset_id(), ty: FieldType::Int, required: true, rest: false });
    r.push(FieldSpec { name: w_change(), ty: FieldType::Str, required: true, rest: true });
    proof {
        assert(specs_view(r@) =~= modify_args());
    }
    r
}

/// A leaf of the group: single name, `Admin` level, no sub-commands.
pub open spec fn leaf_command(name: Seq<u8>, handler: u64, args: Seq<FieldSpecView>) -> CommandView {
    CommandView {
        names: seq![name],
        level: RoLevel::Admin,
        bucket: None,
        handler: Some(handler),
        args,
        subs: Seq::empty(),
    }
}

/// Builds a leaf of the group.
fn build_leaf(name: Vec<u8>, handler: u64, args: Vec<FieldSpec>) -> (r: Command)
    ensures
        cmd_view(r) == leaf_command(name@, handler, specs_view(args@)),
{
    let mut names: Vec<Vec<u8>> = Vec::new();
    let ghost nv = name@;
    names.push(name);
    let r = Command {
        names,
        level: RoLevel::Admin,
        bucket: None,
        handler: Some(handler),
        args,
        sub_commands: Vec::new(),
    };
    proof {
        assert(r.names@.map_values(|n: Vec<u8>| n@) =~= seq![nv]);
        assert(cmds_view(r.sub_commands@) =~= Seq::<CommandView>::empty());
        assert(cmd_view(r) == leaf_command(nv, handler, specs_view(r.args@)));
    }
    r
}

/// The `modify` sub-group: `priority`, `template`, `add-roles` and
/// `remove-roles`, a pure namespace with no handler of its own.
pub open spec fn modify_command() -> CommandView {
    CommandView {
        names: seq![n_modify(), n_m()],
        level: RoLevel::Admin,
        bucket: None,
        handler: None,
        args: Seq::empty(),
        subs: seq![
            leaf_command(n_priority(), HANDLER_AB_MODIFY_PRIORITY, modify_args()),
            leaf_command(n_template(), HANDLER_AB_MODIFY_TEMPLATE, modify_args()),
            leaf_command(n_add_roles(), HANDLER_AB_ADD_ROLES, modify_args()),
            leaf_command(n_remove_roles(), HANDLER_AB_REMOVE_ROLES, modify_args()),
        ],
    }
}

/// Builds [`modify_command`].
fn build_modify() -> (r: Command)
    ensures
        cmd_view(r) == modify_command(),
{
    let mut subs: Vec<Command> = Vec::new();
    subs.push(build_leaf(w_priority(), HANDLER_AB_MODIFY_PRIORITY, build_modify_args()));
    subs.push(build_leaf(w_template(), HANDLER_AB_MODIFY_TEMPLATE, build_modify_args()));
    subs.push(build_leaf(w_add_roles(), HANDLER_AB_ADD_ROLES, build_modify_args()));
    subs.push(build_leaf(w_remove_roles(), HANDLER_AB_REMOVE_ROLES, build_modify_args()));
    let mut names: Vec<Vec<u8>> = Vec::new();
    names.push(w_modify());
    names.push(w_m());
    let r = Command {
        names,
        level: RoLevel::Admin,
        bucket: None,
        handler: None,
        args: Vec::new(),
        sub_commands: subs,
    };
    proof {
        assert(r.names@.map_values(|n: Vec<u8>| n@) =~= seq![n_modify(), n_m()]);
        assert(specs_view(r.args@) =~= Seq::<FieldSpecView>::empty());
        lemma_cmds_view_len(r.sub_commands@);
        lemma_cmds_view_index(r.sub_commands@, 0);
        lemma_cmds_view_index(r.sub_commands@, 1);
        lemma_cmds_view_index(r.sub_commands@, 2);
        lemma_cmds_view_index(r.sub_commands@, 3);
        assert(cmds_view(r.sub_commands@) =~= modify_command().subs);
        assert(cmd_view(r) == modify_command());
    }
    r
}

/// The `delete` leaf, with its two aliases.
pub open spec fn delete_command() -> CommandView {
    CommandView {
        names: seq![n_delete(), n_d(), n_remove()],
        level: RoLevel::Admin,
        bucket: None,
        handler: Some(HANDLER_ASSETBINDS_DELETE),
        args: modify_args().take(1),
        subs: Seq::empty(),
    }
}

/// Builds [`delete_command`].
fn build_delete() -> (r: Command)
    ensures
        cmd_view(r) == delete_command(),
{
    let mut names: Vec<Vec<u8>> = Vec::new();
    names.push(w_delete());
    names.push(w_d());
    names.push(w_remove());
    let mut args: Vec<FieldSpec> = Vec::new();
    args.push(FieldSpec { name: w_asset_id(), ty: FieldType::Int, required: true, rest: false });
    let r = Command {
        names,
        level: RoLevel::Admin,
        bucket: None,
        handler: Some(HANDLER_ASSETBINDS_DELETE),
        args,
        sub_commands: Vec::new(),
    };
    proof {
        assert(r.names@.map_values(|n: Vec<u8>| n@) =~= seq![n_delete(), n_d(), n_remove()]);
        assert(specs_view(r.args@) =~= modify_args().take(1));
        assert(cmds_view(r.sub_commands@) =~= Seq::<CommandView>::empty());
        assert(cmd_view(r) == delete_command());
    }
    r
}

/// The whole `assetbinds` group: `view`, `new`, `modify` and `delete`, the
/// group itself falling through to the view handler.
pub open spec fn assetbinds_command() -> CommandView {
    CommandView {
        names: seq![n_assetbinds(), n_ab()],
        level: RoLevel::Admin,
        bucket: None,
        handler: Some(HANDLER_ASSETBINDS_VIEW),
        args: Seq::empty(),
        subs: seq![
            leaf_command(n_view(), HANDLER_ASSETBINDS_VIEW, Seq::empty()),
            leaf_command(n_new(), HANDLER_ASSETBINDS_NEW, new_args()),
            modify_command(),
            delete_command(),
        ],
    }
}

/// Appends the `assetbinds` command group to a registry under construction.
pub fn assetbinds_config(cmds: &mut Vec<Command>)
    ensures
        final(cmds)@.len() == old(cmds)@.len() + 1,
        forall|k: int| 0 <= k < old(cmds)@.len() ==> final(cmds)@[k] == old(cmds)@[k],
        cmd_view(final(cmds)@.last()) == assetbinds_command(),
{
    let mut subs: Vec<Command> = Vec::new();
    subs.push(build_leaf(w_view(), HANDLER_ASSETBINDS_VIEW, Vec::new()));
    subs.push(build_leaf(w_new(), HANDLER_ASSETBINDS_NEW, build_new_args()));
    subs.push(build_modify());
    subs.push(build_delete());
    let mut names: Vec<Vec<u8>> = Vec::new();
    names.push(w_assetbinds());
    names.push(w_ab());
    let top = Command {
        names,
        level: RoLevel::Admin,
        bucket: None,
        handler: Some(HANDLER_ASSETBINDS_VIEW),
        args: Vec::new(),
        sub_commands: subs,
    };
    proof {
        assert(top.names@.map_values(|n: Vec<u8>| n@) =~= seq![n_assetbinds(), n_ab()]);
        assert(specs_view(top.args@) =~= Seq::<FieldSpecView>::empty());
        assert(specs_view(Seq::<FieldSpec>::empty()) =~= Seq::<FieldSpecView>::empty());
        lemma_cmds_view_len(top.sub_commands@);
        lemma_cmds_view_index(top.sub_commands@, 0);
        lemma_cmds_view_index(top.sub_commands@, 1);
        lemma_cmds_view_index(top.sub_commands@, 2);
        lemma_cmds_view_index(top.sub_commands@, 3);
        assert(cmds_view(top.sub_commands@) =~= assetbinds_command().subs);
        assert(cmd_view(top) == assetbinds_command());
    }
    cmds.push(top);
}

/// The field of an asset bind that a modify invocation targets.
#[derive(Clone, Copy, PartialEq, Eq, Structural, Debug)]
pub enum ModifyOption {
    RolesAdd,
    RolesRemove,
    Priority,
    Template,
}

/// Which modification a token selects, ignoring ASCII case.
pub open spec fn spec_modify_option(arg: Seq<u8>) -> Option<ModifyOption> {
    if lower_seq(arg) == n_roles_add() {
        Some(ModifyOption::RolesAdd)
    } else if lower_seq(arg) == n_roles_remove() {
        Some(ModifyOption::RolesRemove)
    } else if lower_seq(arg) == n_priority() {
        Some(ModifyOption::Priority)
    } else if lower_seq(arg) == n_template() {
        Some(ModifyOption::Template)
    } else {
        None
    }
}

impl ModifyOption {
    /// Parses a modify-option token: one of `roles-add`, `roles-remove`,
    /// `priority`, `template`, in any ASCII case.
    pub fn from_arg(arg: &[u8]) -> (r: Option<ModifyOption>)
        ensures
            r == spec_modify_option(arg@),
    {
        proof {
            assert(lower_seq(n_roles_add()) =~= n_roles_add());
            assert(lower_seq(n_roles_remove()) =~= n_roles_remove());
            assert(lower_seq(n_priority()) =~= n_priority());
            assert(lower_seq(n_template()) =~= n_template());
        }
        let ra = w_roles_add();
        if eq_ignore_case(arg, ra.as_slice()) {
            return Some(ModifyOption::RolesAdd);
        }
        let rr = w_roles_remove();
        if eq_ignore_case(arg, rr.as_slice()) {
            return Some(ModifyOption::RolesRemove);
        }
        let p = w_priority();
        if eq_ignore_case(arg, p.as_slice()) {
            return Some(ModifyOption::Priority);
        }
        let t = w_template();
        if eq_ignore_case(arg, t.as_slice()) {
            return Some(ModifyOption::Template);
        }
        None
    }
}

/// Length and first byte of each name of the group: what tells every pair of
/// names of one level apart.
proof fn lemma_group_name_shapes()
    ensures
        n_view().len() == 4 && n_view()[0] == 118,
        n_new().len() == 3 && n_new()[0] == 110,
        n_modify().len() == 6 && n_modify()[0] == 109,
        n_m().len() == 1 && n_m()[0] == 109,
        n_delete().len() == 6 && n_delete()[0] == 100,
        n_d().len() == 1 && n_d()[0] == 100,
        n_remove().len() == 6 && n_remove()[0] == 114,
        n_priority().len() == 8 && n_priority()[0] == 112,
        n_template().len() == 8 && n_template()[0] == 116,
        n_add_roles().len() == 9 && n_add_roles()[0] == 97,
        n_remove_roles().len() == 12 && n_remove_roles()[0] == 114,
{
}

/// The registry-build invariant holds of the shipped group: within each
/// level of the asset-bind tree no token names two different commands, so
/// alias choice cannot change what resolves (see
/// [`crate::command::lemma_alias_same_command`]).
pub proof fn lemma_assetbinds_names_disjoint()
    ensures
        names_disjoint(assetbinds_command().subs),
        names_disjoint(modify_command().subs),
{
    assert(lower_seq(n_view()) =~= n_view());
    assert(lower_seq(n_new()) =~= n_new());
    assert(lower_seq(n_modify()) =~= n_modify());
    assert(lower_seq(n_m()) =~= n_m());
    assert(lower_seq(n_delete()) =~= n_delete());
    assert(lower_seq(n_d()) =~= n_d());
    assert(lower_seq(n_remove()) =~= n_remove());
    assert(lower_seq(n_priority()) =~= n_priority());
    assert(lower_seq(n_template()) =~= n_template());
    assert(lower_seq(n_add_roles()) =~= n_add_roles());
    assert(lower_seq(n_remove_roles()) =~= n_remove_roles());
    let subs = assetbinds_command().subs;
    assert forall|i: int, j: int, tok: Seq<u8>|
        0 <= i < j < subs.len() implies !(name_matches(subs[i], tok) && name_matches(
        subs[j],
        tok,
    )) by {
        if name_matches(subs[i], tok) && name_matches(subs[j], tok) {
            let a = choose|a: int|
                0 <= a < subs[i].names.len() && lower_seq(subs[i].names[a]) == lower_seq(tok);
            let b = choose|b: int|
                0 <= b < subs[j].names.len() && lower_seq(subs[j].names[b]) == lower_seq(tok);
            let na = subs[i].names[a];
            let nb = subs[j].names[b];
            assert(lower_seq(na) == lower_seq(nb));
            lemma_group_name_shapes();
            assert(na == n_view() || na == n_new() || na == n_modify() || na == n_m()
                || na == n_delete() || na == n_d() || na == n_remove());
            assert(nb == n_view() || nb == n_new() || nb == n_modify() || nb == n_m()
                || nb == n_delete() || nb == n_d() || nb == n_remove());
            assert(false);
        }
    }
    let msubs = modify_command().subs;
    assert forall|i: int, j: int, tok: Seq<u8>|
        0 <= i < j < msubs.len() implies !(name_matches(msubs[i], tok) && name_matches(
        msubs[j],
        tok,
    )) by {
        if name_matches(msubs[i], tok) && name_matches(msubs[j], tok) {
            let a = choose|a: int|
                0 <= a < msubs[i].names.len() && lower_seq(msubs[i].names[a]) == lower_seq(tok);
            let b = choose|b: int|
                0 <= b < msubs[j].names.len() && lower_seq(msubs[j].names[b]) == lower_seq(tok);
            let na = msubs[i].names[a];
            let nb = msubs[j].names[b];
            assert(lower_seq(na) == lower_seq(nb));
            lemma_group_name_shapes();
            assert(na == n_priority() || na == n_template() || na == n_add_roles()
                || na == n_remove_roles());
            assert(nb == n_priority() || nb == n_template() || nb == n_add_roles()
                || nb == n_remove_roles());
            assert(false);
        }
    }
}

} // verus!
