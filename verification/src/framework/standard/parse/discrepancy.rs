//! Whether the author of a message may use what the message asks for.

use std::collections::HashMap;
use vstd::prelude::*;

use crate::client::Context;
use crate::framework::standard::configuration::Configuration;
use crate::framework::standard::stream::same_text;
use crate::framework::standard::structures::{CommonOptions, DispatchError, OnlyIn, Restrictions};
use crate::model::channel::{Message, PermissionOverwrite, PermissionOverwriteType};
use crate::model::guild::{Guild, Member, Role};
use crate::model::id::{ChannelId, GuildId, RoleId, UserId};
use crate::model::permissions::{Permissions, ADMINISTRATOR, ALL, VIEW_CHANNEL};

verus! {

broadcast use vstd::std_specs::hash::group_hash_axioms;

/// What a channel allows and denies to a role, with the rank of the role.
#[derive(Clone, Copy, Debug, PartialEq, Eq, Structural)]
pub struct RoleOverwrite {
    pub position: u16,
    pub deny: Permissions,
    pub allow: Permissions,
}

/// The permissions that the roles of a member grant: those of everyone,
/// together with those of each role of the member that is on record.
pub open spec fn granted_by_roles(
    everyone: u64,
    member_roles: Seq<RoleId>,
    roles: Map<u64, Role>,
) -> u64
    decreases member_roles.len(),
{
    if member_roles.len() == 0 {
        everyone
    } else {
        let before = granted_by_roles(everyone, member_roles.drop_last(), roles);
        let role = member_roles.last();
        if roles.contains_key(role.0) {
            before | roles[role.0].permissions.0
        } else {
            before
        }
    }
}

/// Permissions after one overwrite: what it denies is gone, what it allows is
/// there.
pub open spec fn overwritten(permissions: u64, deny: u64, allow: u64) -> u64 {
    (permissions & !deny) | allow
}

/// Whether an overwrite for `role` concerns a member with `member_roles`: it is
/// for everyone in the guild, or for a role that the member has.
pub open spec fn concerns(role: RoleId, guild_id: GuildId, member_roles: Seq<RoleId>) -> bool {
    role.0 == guild_id.0 || member_roles.contains(role)
}

/// The overwrites of a channel for the roles of a member, in the order of the
/// channel, each with the rank of its role. Overwrites for roles that are not on
/// record are left out.
pub open spec fn role_overwrites(
    overwrites: Seq<PermissionOverwrite>,
    guild_id: GuildId,
    member_roles: Seq<RoleId>,
    roles: Map<u64, Role>,
) -> Seq<RoleOverwrite>
    decreases overwrites.len(),
{
    if overwrites.len() == 0 {
        Seq::empty()
    } else {
        let before = role_overwrites(overwrites.drop_last(), guild_id, member_roles, roles);
        let overwrite = overwrites.last();
        match overwrite.kind {
            PermissionOverwriteType::Role(role) => if concerns(role, guild_id, member_roles)
                && roles.contains_key(role.0) {
                before.push(
                    RoleOverwrite {
                        position: roles[role.0].position,
                        deny: overwrite.deny,
                        allow: overwrite.allow,
                    },
                )
            } else {
                before
            },
            PermissionOverwriteType::Member(_) => before,
        }
    }
}

/// `sorted`, which is in the order of its ranks, with `item` put behind every
/// entry of its own rank or a lower one.
pub open spec fn placed(sorted: Seq<RoleOverwrite>, item: RoleOverwrite) -> Seq<RoleOverwrite>
    decreases sorted.len(),
{
    if sorted.len() == 0 {
        seq![item]
    } else if sorted.last().position <= item.position {
        sorted.push(item)
    } else {
        placed(sorted.drop_last(), item).push(sorted.last())
    }
}

/// The overwrites in the order of their ranks, lowest first. Overwrites of one
/// rank keep the order they came in.
pub open spec fn by_position(data: Seq<RoleOverwrite>) -> Seq<RoleOverwrite>
    decreases data.len(),
{
    if data.len() == 0 {
        Seq::empty()
    } else {
        placed(by_position(data.drop_last()), data.last())
    }
}

/// Permissions after a row of overwrites for roles, each applied in turn.
pub open spec fn after_role_overwrites(permissions: u64, data: Seq<RoleOverwrite>) -> u64
    decreases data.len(),
{
    if data.len() == 0 {
        permissions
    } else {
        overwritten(
            after_role_overwrites(permissions, data.drop_last()),
            data.last().deny.0,
            data.last().allow.0,
        )
    }
}

/// Permissions after those overwrites of a channel that are for the member
/// `user`, each applied in turn.
pub open spec fn after_member_overwrites(
    permissions: u64,
    overwrites: Seq<PermissionOverwrite>,
    user: UserId,
) -> u64
    decreases overwrites.len(),
{
    if overwrites.len() == 0 {
        permissions
    } else {
        let before = after_member_overwrites(permissions, overwrites.drop_last(), user);
        if overwrites.last().kind == PermissionOverwriteType::Member(user) {
            overwritten(before, overwrites.last().deny.0, overwrites.last().allow.0)
        } else {
            before
        }
    }
}

/// Permissions in a channel: those granted by roles, then overwritten for the
/// member's roles from the lowest rank up, then overwritten for the member.
pub open spec fn in_channel(
    granted: u64,
    overwrites: Seq<PermissionOverwrite>,
    guild_id: GuildId,
    member: Member,
    roles: Map<u64, Role>,
) -> u64 {
    after_member_overwrites(
        after_role_overwrites(
            granted,
            by_position(role_overwrites(overwrites, guild_id, member.roles@, roles)),
        ),
        overwrites,
        member.user.id,
    )
}

/// The permissions of a member in a channel of a guild.
///
/// The owner of the guild may do everything, and so may an administrator.
/// Without the role of everyone on record, whose id is that of the guild,
/// nothing is granted. A channel that is not on record overwrites nothing. In
/// the channel that has the id of the guild, everyone may look.
pub open spec fn permissions_of(
    guild: Option<Guild>,
    guild_id: GuildId,
    channel_id: ChannelId,
    member: Member,
    roles: Map<u64, Role>,
) -> u64 {
    if guild is Some && member.user.id == guild->0.owner_id {
        ALL
    } else if !roles.contains_key(guild_id.0) {
        0
    } else {
        let granted = granted_by_roles(roles[guild_id.0].permissions.0, member.roles@, roles);
        if granted & ADMINISTRATOR == ADMINISTRATOR {
            ALL
        } else {
            let here = match guild {
                Some(guild) if guild.channels@.contains_key(channel_id.0) => in_channel(
                    granted,
                    guild.channels@[channel_id.0].permission_overwrites@,
                    guild_id,
                    member,
                    roles,
                ),
                _ => granted,
            };
            if channel_id.0 == guild_id.0 {
                here | VIEW_CHANNEL
            } else {
                here
            }
        }
    }
}

/// Where `item` goes in a row that is in the order of its ranks: behind the last
/// entry that does not outrank it.
proof fn lemma_placed_at(sorted: Seq<RoleOverwrite>, item: RoleOverwrite, k: int)
    requires
        0 <= k <= sorted.len(),
        forall|j: int| k <= j < sorted.len() ==> (#[trigger] sorted[j]).position > item.position,
        k > 0 ==> sorted[k - 1].position <= item.position,
    ensures
        placed(sorted, item) == sorted.insert(k, item),
    decreases sorted.len(),
{
    if sorted.len() == 0 {
        assert(sorted.insert(0, item) =~= seq![item]);
    } else if k == sorted.len() {
        assert(sorted.insert(k, item) =~= sorted.push(item));
    } else {
        assert(sorted.last().position > item.position);
        lemma_placed_at(sorted.drop_last(), item, k);
        assert(sorted.drop_last().insert(k, item).push(sorted.last()) =~= sorted.insert(k, item));
    }
}

/// Whether a row of overwrites is in the order of its ranks, lowest first.
pub open spec fn in_order(data: Seq<RoleOverwrite>) -> bool {
    forall|i: int, j: int| 0 <= i < j < data.len() ==> data[i].position <= data[j].position
}

/// The overwrites of one rank among `data`, in the order they stand in.
pub open spec fn of_rank(data: Seq<RoleOverwrite>, position: u16) -> Seq<RoleOverwrite>
    decreases data.len(),
{
    if data.len() == 0 {
        Seq::empty()
    } else if data.last().position == position {
        of_rank(data.drop_last(), position).push(data.last())
    } else {
        of_rank(data.drop_last(), position)
    }
}

/// Placing an overwrite adds it and nothing else, and keeps the order of ranks.
proof fn lemma_placed_is_in_order(sorted: Seq<RoleOverwrite>, item: RoleOverwrite)
    requires
        in_order(sorted),
    ensures
        in_order(placed(sorted, item)),
        placed(sorted, item).len() == sorted.len() + 1,
        forall|i: int|
            0 <= i < placed(sorted, item).len() ==> (#[trigger] placed(sorted, item)[i]) == item
                || sorted.contains(placed(sorted, item)[i]),
    decreases sorted.len(),
{
    if sorted.len() == 0 {
    } else if sorted.last().position <= item.position {
        let result = sorted.push(item);
        assert forall|i: int| 0 <= i < result.len() implies (#[trigger] result[i]) == item
            || sorted.contains(result[i]) by {
            if i < sorted.len() {
                assert(sorted[i] == result[i]);
            }
        }
    } else {
        let shorter = sorted.drop_last();
        let inner = placed(shorter, item);
        lemma_placed_is_in_order(shorter, item);
        let result = inner.push(sorted.last());
        assert forall|i: int| 0 <= i < inner.len() implies (#[trigger] inner[i]).position
            <= sorted.last().position by {
            if inner[i] != item {
                let at = choose|at: int| 0 <= at < shorter.len() && shorter[at] == inner[i];
                assert(sorted[at] == inner[i]);
            }
        }
        assert forall|i: int| 0 <= i < result.len() implies (#[trigger] result[i]) == item
            || sorted.contains(result[i]) by {
            if i < inner.len() {
                if inner[i] != item {
                    let at = choose|at: int| 0 <= at < shorter.len() && shorter[at] == inner[i];
                    assert(sorted[at] == result[i]);
                }
            } else {
                assert(sorted[sorted.len() - 1] == result[i]);
            }
        }
    }
}

/// Placing an overwrite puts it last among those of its rank and leaves the
/// other ranks as they were.
proof fn lemma_placed_keeps_ranks(sorted: Seq<RoleOverwrite>, item: RoleOverwrite, position: u16)
    ensures
        of_rank(placed(sorted, item), position) == if item.position == position {
            of_rank(sorted, position).push(item)
        } else {
            of_rank(sorted, position)
        },
    decreases sorted.len(),
{
    if sorted.len() == 0 {
        assert(seq![item].drop_last() =~= sorted);
    } else if sorted.last().position <= item.position {
        assert(sorted.push(item).drop_last() =~= sorted);
    } else {
        lemma_placed_keeps_ranks(sorted.drop_last(), item, position);
        let inner = placed(sorted.drop_last(), item);
        assert(inner.push(sorted.last()).drop_last() =~= inner);
    }
}

/// What [`by_position`] hands back is in the order of its ranks and has as many
/// overwrites as it was given.
pub proof fn lemma_by_position_is_in_order(data: Seq<RoleOverwrite>)
    ensures
        in_order(by_position(data)),
        by_position(data).len() == data.len(),
    decreases data.len(),
{
    if data.len() > 0 {
        lemma_by_position_is_in_order(data.drop_last());
        lemma_placed_is_in_order(by_position(data.drop_last()), data.last());
    }
}

/// [`by_position`] neither drops nor adds nor reorders within a rank: the
/// overwrites of each rank come out as they went in.
pub proof fn lemma_by_position_keeps_ranks(data: Seq<RoleOverwrite>, position: u16)
    ensures
        of_rank(by_position(data), position) == of_rank(data, position),
    decreases data.len(),
{
    if data.len() > 0 {
        lemma_by_position_keeps_ranks(data.drop_last(), position);
        lemma_placed_keeps_ranks(by_position(data.drop_last()), data.last(), position);
    }
}

/// Whether `role` is among `member_roles`.
fn has_role(member_roles: &Vec<RoleId>, role: RoleId) -> (has: bool)
    ensures
        has == member_roles@.contains(role),
{
    let mut i: usize = 0;
    while i < member_roles.len()
        invariant
            0 <= i <= member_roles.len(),
            forall|j: int| 0 <= j < i ==> member_roles@[j] != role,
        decreases member_roles.len() - i,
    {
        if member_roles[i] == role {
            return true;
        }
        i = i + 1;
    }
    false
}

/// Brings overwrites into the order of their ranks, lowest first. Overwrites of
/// one rank keep the order they came in.
pub fn sort_by_position(data: &Vec<RoleOverwrite>) -> (sorted: Vec<RoleOverwrite>)
    ensures
        sorted@ == by_position(data@),
{
    let mut sorted: Vec<RoleOverwrite> = Vec::new();
    let mut i: usize = 0;
    while i < data.len()
        invariant
            0 <= i <= data.len(),
            sorted@ == by_position(data@.take(i as int)),
        decreases data.len() - i,
    {
        let item = data[i];
        let mut k: usize = sorted.len();
        while k > 0 && sorted[k - 1].position > item.position
            invariant
                0 <= k <= sorted.len(),
                forall|j: int|
                    k <= j < sorted.len() ==> (#[trigger] sorted@[j]).position > item.position,
            decreases k,
        {
            k = k - 1;
        }
        proof {
            lemma_placed_at(sorted@, item, k as int);
            assert(data@.take(i + 1).drop_last() =~= data@.take(i as int));
        }
        sorted.insert(k, item);
        i = i + 1;
    }
    proof {
        assert(data@.take(i as int) =~= data@);
    }
    sorted
}

/// Works out the permissions of a member in a channel of a guild.
///
/// `guild` is what is known of the guild with `guild_id`, if anything, and
/// `roles` are the roles of that guild, each under the number of its id.
pub fn permissions_in(
    guild: Option<&Guild>,
    guild_id: GuildId,
    channel_id: ChannelId,
    member: &Member,
    roles: &HashMap<u64, Role>,
) -> (permissions: Permissions)
    ensures
        permissions.0 == permissions_of(
            match guild {
                Some(guild) => Some(*guild),
                None => None,
            },
            guild_id,
            channel_id,
            *member,
            roles@,
        ),
{
    if let Some(guild) = guild {
        if member.user.id == guild.owner_id {
            return Permissions::all();
        }
    }
    let everyone = match roles.get(&guild_id.0) {
        Some(everyone) => everyone,
        None => {
            return Permissions::empty();
        },
    };

    let mut permissions: u64 = everyone.permissions.0;

    let mut i: usize = 0;
    while i < member.roles.len()
        invariant
            0 <= i <= member.roles.len(),
            permissions == granted_by_roles(
                everyone.permissions.0,
                member.roles@.take(i as int),
                roles@,
            ),
        decreases member.roles.len() - i,
    {
        proof {
            assert(member.roles@.take(i + 1).drop_last() =~= member.roles@.take(i as int));
        }
        if let Some(role) = roles.get(&member.roles[i].0) {
            permissions = permissions | role.permissions.0;
        }
        i = i + 1;
    }
    proof {
        assert(member.roles@.take(i as int) =~= member.roles@);
    }
    let ghost granted = permissions;

    if permissions & ADMINISTRATOR == ADMINISTRATOR {
        return Permissions::all();
    }
    let channel = match guild {
        Some(guild) => guild.channels.get(&channel_id.0),
        None => None,
    };
    if let Some(channel) = channel {
        let overwrites = &channel.permission_overwrites;
        let mut data: Vec<RoleOverwrite> = Vec::new();

        let mut i: usize = 0;
        while i < overwrites.len()
            invariant
                0 <= i <= overwrites.len(),
                data@ == role_overwrites(
                    overwrites@.take(i as int),
                    guild_id,
                    member.roles@,
                    roles@,
                ),
            decreases overwrites.len() - i,
        {
            proof {
                assert(overwrites@.take(i + 1).drop_last() =~= overwrites@.take(i as int));
            }
            let overwrite = &overwrites[i];
            if let PermissionOverwriteType::Role(role) = overwrite.kind {
                if role.0 == guild_id.0 || has_role(&member.roles, role) {
                    if let Some(role) = roles.get(&role.0) {
                        data.push(
                            RoleOverwrite {
                                position: role.position,
                                deny: overwrite.deny,
                                allow: overwrite.allow,
                            },
                        );
                    }
                }
            }
            i = i + 1;
        }
        proof {
            assert(overwrites@.take(i as int) =~= overwrites@);
        }

        let data = sort_by_position(&data);

        let mut i: usize = 0;
        while i < data.len()
            invariant
                0 <= i <= data.len(),
                permissions == after_role_overwrites(granted, data@.take(i as int)),
            decreases data.len() - i,
        {
            proof {
                assert(data@.take(i + 1).drop_last() =~= data@.take(i as int));
            }
            permissions = (permissions & !data[i].deny.0) | data[i].allow.0;
            i = i + 1;
        }
        proof {
            assert(data@.take(i as int) =~= data@);
        }
        let ghost by_roles = permissions;

        let mut i: usize = 0;
        while i < overwrites.len()
            invariant
                0 <= i <= overwrites.len(),
                permissions == after_member_overwrites(
                    by_roles,
                    overwrites@.take(i as int),
                    member.user.id,
                ),
            decreases overwrites.len() - i,
        {
            proof {
                assert(overwrites@.take(i + 1).drop_last() =~= overwrites@.take(i as int));
            }
            let overwrite = &overwrites[i];
            if overwrite.kind == PermissionOverwriteType::Member(member.user.id) {
                permissions = (permissions & !overwrite.deny.0) | overwrite.allow.0;
            }
            i = i + 1;
        }
        proof {
            assert(overwrites@.take(i as int) =~= overwrites@);
        }
    }
    if channel_id.0 == guild_id.0 {
        permissions = permissions | VIEW_CHANNEL;
    }
    Permissions(permissions)
}

/// Whether the roles of a member let the member past a list of allowed role
/// names: the list is empty, or one of the member's roles is on record under a
/// name that is on the list.
pub open spec fn has_allowed_role(
    allowed_roles: Seq<&'static str>,
    roles: Map<u64, Role>,
    member_roles: Seq<RoleId>,
) -> bool {
    allowed_roles.len() == 0 || exists|i: int, j: int|
        {
            &&& 0 <= i < member_roles.len()
            &&& 0 <= j < allowed_roles.len()
            &&& roles.contains_key(#[trigger] member_roles[i].0)
            &&& roles[member_roles[i].0].name@ == (#[trigger] allowed_roles[j])@
        }
}

/// Whether `name` is one of `allowed_roles`.
fn is_allowed(allowed_roles: &[&'static str], name: &str) -> (allowed: bool)
    ensures
        allowed == exists|j: int|
            0 <= j < allowed_roles@.len() && name@ == (#[trigger] allowed_roles@[j])@,
{
    let mut j: usize = 0;
    while j < allowed_roles.len()
        invariant
            0 <= j <= allowed_roles@.len(),
            forall|k: int| 0 <= k < j ==> name@ != (#[trigger] allowed_roles@[k])@,
        decreases allowed_roles@.len() - j,
    {
        if same_text(allowed_roles[j], name) {
            return true;
        }
        j = j + 1;
    }
    false
}

/// Whether the member has one of the roles that the options allow, or the
/// options allow every role.
pub fn has_correct_roles<O: CommonOptions>(
    options: &O,
    roles: &HashMap<u64, Role>,
    member: &Member,
) -> (correct: bool)
    ensures
        correct == has_allowed_role(options.restrictions().allowed_roles, roles@, member.roles@),
{
    let allowed_roles = options.allowed_roles();
    if allowed_roles.len() == 0 {
        return true;
    }
    let mut i: usize = 0;
    while i < member.roles.len()
        invariant
            0 <= i <= member.roles.len(),
            allowed_roles@ == options.restrictions().allowed_roles,
            allowed_roles@.len() > 0,
            forall|k: int, j: int|
                0 <= k < i && 0 <= j < allowed_roles@.len() && roles@.contains_key(
                    #[trigger] member.roles@[k].0,
                ) ==> roles@[member.roles@[k].0].name@ != (#[trigger] allowed_roles@[j])@,
        decreases member.roles.len() - i,
    {
        if let Some(role) = roles.get(&member.roles[i].0) {
            if is_allowed(allowed_roles, role.name.as_str()) {
                return true;
            }
        }
        i = i + 1;
    }
    false
}

/// Whether `user` is among the owners that the configuration names.
pub fn is_owner(config: &Configuration, user: UserId) -> (owner: bool)
    ensures
        owner == config.owners@.contains(user),
{
    let mut i: usize = 0;
    while i < config.owners.len()
        invariant
            0 <= i <= config.owners.len(),
            forall|j: int| 0 <= j < i ==> config.owners@[j] != user,
        decreases config.owners.len() - i,
    {
        if config.owners[i] == user {
            return true;
        }
        i = i + 1;
    }
    false
}

/// What stands against the author's use of a command or group with the
/// restrictions `options`, if anything.
///
/// The checks come in this order: the owners' privilege, the place of the
/// message, the author's permissions, the author's roles. Permissions and roles
/// are looked at only for a message from a guild of which both the guild and
/// the author's membership are on record.
pub open spec fn discrepancy(
    ctx: Context,
    msg: Message,
    config: Configuration,
    options: Restrictions,
) -> Result<(), DispatchError> {
    let owner = config.owners@.contains(msg.author.id);
    let private = msg.guild_id is None;
    if options.owners_only && !owner {
        Err(DispatchError::OnlyForOwners)
    } else if options.only_in == OnlyIn::Dm && !private {
        Err(DispatchError::OnlyForDM)
    } else if (!config.allow_dm || options.only_in == OnlyIn::Guild) && private {
        Err(DispatchError::OnlyForGuilds)
    } else if msg.guild_id is Some && ctx.guild is Some && ctx.member is Some {
        let guild = ctx.guild->0;
        let member = ctx.member->0;
        let permissions = permissions_of(
            ctx.guild,
            msg.guild_id->0,
            msg.channel_id,
            member,
            guild.roles@,
        );
        let required = options.required_permissions;
        if !(permissions & required.0 == required.0 || options.owner_privilege && owner) {
            Err(DispatchError::LackingPermissions(required))
        } else if !(permissions & ADMINISTRATOR == ADMINISTRATOR) && !has_allowed_role(
            options.allowed_roles,
            guild.roles@,
            member.roles@,
        ) {
            Err(DispatchError::LackingRole)
        } else {
            Ok(())
        }
    } else {
        Ok(())
    }
}

/// Checked per valid group or command in the message.
pub fn check_discrepancy<O: CommonOptions>(
    ctx: &Context,
    msg: &Message,
    config: &Configuration,
    options: &O,
) -> (checked: Result<(), DispatchError>)
    ensures
        checked == discrepancy(*ctx, *msg, *config, options.restrictions()),
{
    if options.owners_only() && !is_owner(config, msg.author.id) {
        return Err(DispatchError::OnlyForOwners);
    }
    if options.only_in() == OnlyIn::Dm && !msg.is_private() {
        return Err(DispatchError::OnlyForDM);
    }
    if (!config.allow_dm || options.only_in() == OnlyIn::Guild) && msg.is_private() {
        return Err(DispatchError::OnlyForGuilds);
    }
    if let Some(guild_id) = msg.guild_id {
        let guild = match &ctx.guild {
            Some(guild) => guild,
            None => {
                return Ok(());
            },
        };
        let member = match &ctx.member {
            Some(member) => member,
            None => {
                return Ok(());
            },
        };
        let perms = permissions_in(Some(guild), guild_id, msg.channel_id, member, &guild.roles);
        let required = options.required_permissions();

        if !(perms.contains(required) || options.owner_privilege() && is_owner(
            config,
            msg.author.id,
        )) {
            return Err(DispatchError::LackingPermissions(required));
        }
        if !perms.administrator() && !has_correct_roles(options, &guild.roles, member) {
            return Err(DispatchError::LackingRole);
        }
    }
    Ok(())
}

} // verus!
