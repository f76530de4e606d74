//! Permission evaluation: extracting the author's and the bot's capability
//! sets from an invocation context.
//!
//! A capability set is carried as a plain `u64` bit set. Absence of a set is
//! meaningful (a non-guild context cannot supply one) and must stay
//! distinguishable from an empty set, so both fields of [`PermissionsInfo`]
//! are `Option`s and are never defaulted.

use vstd::prelude::*;

verus! {

/// The author's and the bot's capability sets, as far as the invocation
/// context could supply them. `None` means "unknown - caller decides policy",
/// never an implicit grant or denial.
#[derive(Clone, Copy, Debug)]
pub struct PermissionsInfo {
    /// Permission set of the invoking user, if the context supplied one.
    pub author_permissions: Option<u64>,
    /// Permission set of the bot application, if the context supplied one.
    pub bot_permissions: Option<u64>,
}

/// The permission-carrying fields of a guild-scoped command interaction
/// payload. The platform contract says both are populated for in-guild
/// interactions; a `None` here is a violation of that contract.
#[derive(Clone, Copy, Debug)]
pub struct InteractionPermissionFields {
    /// Permission set of the invoking member, if the payload carried a member
    /// with a resolved permission set.
    pub member_permissions: Option<u64>,
    /// Application-level permission set of the bot, if the payload carried it.
    pub app_permissions: Option<u64>,
}

/// A guild-scoped interaction payload was missing a field that the platform
/// contract guarantees. Fatal for the invocation; distinct from a normal
/// authorization failure.
#[derive(Clone, Copy, Debug, PartialEq, Eq, Structural)]
pub enum ContractViolation {
    /// The interaction carried no resolved author permission set.
    MissingAuthorPermissions,
    /// The interaction carried no bot application permission set.
    MissingBotPermissions,
}

/// An invocation context, reduced to what permission evaluation reads of it.
#[derive(Clone, Copy, Debug)]
pub enum InvocationContext {
    /// A guild-scoped command interaction, with its permission fields.
    GuildInteraction(InteractionPermissionFields),
    /// A non-guild (e.g. direct-message) or ambiguous context: no permission
    /// information is available.
    NonGuild,
}

/// Gets the permissions of the interaction author and the bot from a
/// guild-scoped interaction. Both fields are owed by the platform contract;
/// a missing one is reported as a [`ContractViolation`], never papered over.
pub fn get_author_and_bot_permissions(
    interaction: &InteractionPermissionFields,
) -> (r: Result<PermissionsInfo, ContractViolation>)
    ensures
        interaction.member_permissions is None ==> r == Err::<
            PermissionsInfo,
            ContractViolation,
        >(ContractViolation::MissingAuthorPermissions),
        interaction.member_permissions is Some && interaction.app_permissions is None ==> r
            == Err::<PermissionsInfo, ContractViolation>(ContractViolation::MissingBotPermissions),
        interaction.member_permissions is Some && interaction.app_permissions is Some ==> (r
            matches Ok(info) && info.author_permissions == interaction.member_permissions
            && info.bot_permissions == interaction.app_permissions),
{
    let author_permissions = match interaction.member_permissions {
        Some(p) => p,
        None => {
            return Err(ContractViolation::MissingAuthorPermissions);
        },
    };
    let bot_permissions = match interaction.app_permissions {
        Some(p) => p,
        None => {
            return Err(ContractViolation::MissingBotPermissions);
        },
    };
    Ok(
        PermissionsInfo {
            author_permissions: Some(author_permissions),
            bot_permissions: Some(bot_permissions),
        },
    )
}

/// Evaluates an invocation context to a [`PermissionsInfo`]. A non-guild
/// context yields `None` for both sets; a guild interaction yields both sets,
/// or a [`ContractViolation`] when the platform payload was incomplete.
pub fn evaluate(ctx: &InvocationContext) -> (r: Result<PermissionsInfo, ContractViolation>)
    ensures
        ctx is NonGuild ==> (r matches Ok(info) && info.author_permissions is None
            && info.bot_permissions is None),
        ctx matches InvocationContext::GuildInteraction(fields) ==> r
            == get_author_and_bot_permissions_result(*fields),
{
    match ctx {
        InvocationContext::NonGuild => Ok(
            PermissionsInfo { author_permissions: None, bot_permissions: None },
        ),
        InvocationContext::GuildInteraction(fields) => get_author_and_bot_permissions(fields),
    }
}

/// What [`get_author_and_bot_permissions`] returns, as a spec-level value.
pub open spec fn get_author_and_bot_permissions_result(
    fields: InteractionPermissionFields,
) -> Result<PermissionsInfo, ContractViolation> {
    if fields.member_permissions is None {
        Err(ContractViolation::MissingAuthorPermissions)
    } else if fields.app_permissions is None {
        Err(ContractViolation::MissingBotPermissions)
    } else {
        Ok(
            PermissionsInfo {
                author_permissions: fields.member_permissions,
                bot_permissions: fields.app_permissions,
            },
        )
    }
}

} // verus!
