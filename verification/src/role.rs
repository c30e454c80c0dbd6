//! What each player may see of their own role.

use vstd::prelude::*;

use crate::errors::DomainError;
use crate::model::{GameRole, PrivateRoleModel, PrivateRoleView, RoomModel, RoomState};

verus! {

/// The role card of `player_id`: the imposter sees the category only, the
/// crew also sees the topic.
pub open spec fn role_rule(room: RoomModel, player_id: Seq<char>) -> Result<PrivateRoleModel, DomainError> {
    if !room.is_member(player_id) {
        Err(DomainError::NotMember)
    } else if room.category is None {
        Err(DomainError::CategoryNotSet)
    } else if room.round is None {
        Err(DomainError::NotInProgress)
    } else if room.round->0.imposter_player_id == player_id {
        Ok(
            PrivateRoleModel {
                game_role: GameRole::Imposter,
                category: room.category->0,
                topic_id: None,
            },
        )
    } else {
        Ok(
            PrivateRoleModel {
                game_role: GameRole::Crew,
                category: room.category->0,
                topic_id: Some(room.round->0.topic_id),
            },
        )
    }
}

pub open spec fn role_outcome(r: Result<PrivateRoleView, DomainError>) -> Result<PrivateRoleModel, DomainError> {
    match r {
        Ok(v) => Ok(v@),
        Err(e) => Err(e),
    }
}

/// Returns private role details for one room member.
pub fn private_role_view(room: &RoomState, player_id: &str) -> (r: Result<PrivateRoleView, DomainError>)
    ensures
        role_outcome(r) == role_rule(room@, player_id@),
{
    if !room.is_member(player_id) {
        return Err(DomainError::NotMember);
    }
    let category = match &room.category {
        Some(c) => c.clone(),
        None => {
            return Err(DomainError::CategoryNotSet);
        },
    };
    let round = match &room.round {
        Some(rd) => rd,
        None => {
            return Err(DomainError::NotInProgress);
        },
    };
    if crate::text::str_eq(round.imposter_player_id.as_str(), player_id) {
        return Ok(PrivateRoleView { game_role: GameRole::Imposter, category, topic_id: None });
    }
    Ok(
        PrivateRoleView {
            game_role: GameRole::Crew,
            category,
            topic_id: Some(round.topic_id.clone()),
        },
    )
}

} // verus!
