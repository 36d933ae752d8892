//! Names of people.
use vstd::prelude::*;
use crate::models::{CandidateView, NickView, ProfileView};
use crate::panels::{card_person, identity_person, nick_line, NickColors};
use crate::people::{
    bridged, disambiguated, has_space, identity_source, nick_cluster, profile_for_nick,
    query_target, rank_len, sender_card, sender_label, unranked, user_id_for_nick, CardView,
    IdentityView,
};
use crate::seqs::{first_from, first_index, lemma_first_from};
use crate::text::{
    contains, ends_with, find_from, is_space, lemma_find_from, lemma_rfind_from, occurs_at,
    rfind_from,
};

verus! {

/// Whether a text is the id of a Matrix user.
pub open spec fn is_user_id(id: Seq<char>) -> bool {
    id.len() > 0 && id[0] == '@' && contains(id, ":"@) && !has_space(id)
}

/// A nick that spells out its user is read as name and user.
pub proof fn spelled_out_nicks_name_their_user(name: Seq<char>, user_id: Seq<char>)
    requires
        name.len() > 0,
        is_user_id(user_id),
    ensures
        disambiguated(name + " ("@ + user_id + ")"@) == Some((name, user_id)),
{
    reveal_strlit(")");
    reveal_strlit(" (");
    reveal_strlit("@");
    let open = name + " ("@ + user_id;
    let nick = open + ")"@;
    assert(nick.subrange(nick.len() - 1, nick.len() as int) =~= ")"@);
    assert(nick.take(nick.len() - 1) =~= open);
    let at = name.len() as int;
    assert(open.subrange(at, at + 2) =~= " ("@);
    lemma_rfind_from(open, " ("@, open.len() - 2);
    assert(occurs_at(open, " ("@, at));
    let found = rfind_from(open, " ("@, open.len() - 2)->0;
    if found > at {
        let part = open.subrange(found, found + 2);
        assert(part[0] == open[found] && part[1] == open[found + 1]);
        if found == at + 1 {
            assert(open[found] == '(');
        } else {
            assert(open[found] == user_id[found - at - 2]);
            assert(is_space(user_id[found - at - 2]));
        }
    }
    assert(open.take(at) =~= name);
    assert(open.skip(at + 2) =~= user_id);
    assert(user_id.subrange(0, 1) =~= "@"@);
}

/// A nick without a user behind it stands for itself.
pub proof fn plain_nicks_stand_for_themselves(nick: NickView)
    requires
        nick.name.len() == 0 || nick.name.last() != ')',
    ensures
        disambiguated(nick.name) is None,
        nick_cluster(nick).display_name == nick.name,
        nick_cluster(nick).members == seq![nick],
        nick_cluster(nick).user_ids.len() == 0,
{
    reveal_strlit(")");
    let n = nick.name.len();
    if ends_with(nick.name, ")"@) {
        assert(nick.name.subrange(n - 1, n as int)[0] == nick.name[n - 1]);
    }
}

/// A nick that spells out its user is shown by its name, with its user.
pub proof fn spelled_out_nicks_are_shown_by_name(
    nick: NickView,
    name: Seq<char>,
    user_id: Seq<char>,
)
    requires
        name.len() > 0,
        is_user_id(user_id),
        nick.name == name + " ("@ + user_id + ")"@,
    ensures
        nick_cluster(nick).display_name == name,
        nick_cluster(nick).members == seq![nick],
        nick_cluster(nick).user_ids == seq![user_id],
{
    spelled_out_nicks_name_their_user(name, user_id);
}

/// The source of a user is the server behind the colon.
pub proof fn users_come_from_their_server(local: Seq<char>, server: Seq<char>)
    requires
        forall|i: int| 0 <= i < local.len() ==> #[trigger] local[i] != ':',
    ensures
        identity_source("@"@ + local + ":"@ + server) == server,
{
    reveal_strlit("@");
    reveal_strlit(":");
    let rest = local + ":"@ + server;
    let id = "@"@ + local + ":"@ + server;
    assert(id.subrange(0, 1) =~= "@"@);
    assert(id.skip(1) =~= rest);
    let at = local.len() as int;
    assert(rest.subrange(at, at + 1) =~= ":"@);
    lemma_find_from(rest, ":"@, 0);
    assert(occurs_at(rest, ":"@, at));
    let found = find_from(rest, ":"@, 0)->0;
    if found < at {
        assert(rest.subrange(found, found + 1)[0] == rest[found]);
        assert(rest[found] == local[found]);
    }
    assert(rest.skip(at + 1) =~= server);
}

/// A nick is found without the marks of rank before it.
pub proof fn ranks_are_left_out(marks: Seq<char>, nick: Seq<char>)
    requires
        forall|i: int|
            0 <= i < marks.len() ==> #[trigger] marks[i] == '@' || marks[i] == '+' || marks[i]
                == '%' || marks[i] == '&' || marks[i] == '~' || marks[i] == ' ',
        nick.len() > 0,
        nick[0] != '@' && nick[0] != '+' && nick[0] != '%' && nick[0] != '&' && nick[0] != '~'
            && nick[0] != ' ',
    ensures
        rank_len(marks + nick) == marks.len(),
        unranked(marks + nick) == nick,
    decreases marks.len(),
{
    let text = marks + nick;
    if marks.len() > 0 {
        let rest = marks.skip(1);
        assert forall|i: int| 0 <= i < rest.len() implies #[trigger] rest[i] == '@' || rest[i]
            == '+' || rest[i] == '%' || rest[i] == '&' || rest[i] == '~' || rest[i] == ' ' by {
            assert(rest[i] == marks[i + 1]);
        }
        ranks_are_left_out(rest, nick);
        assert(text.skip(1) =~= rest + nick);
        assert(text[0] == marks[0]);
    } else {
        assert(text =~= nick);
    }
    assert(text.skip(marks.len() as int) =~= nick);
}

/// A profile is found by the nick that it names.
pub proof fn profiles_are_found_by_nick(profiles: Seq<ProfileView>, i: int)
    requires
        0 <= i < profiles.len(),
        forall|j: int| 0 <= j < i ==> (#[trigger] profiles[j]).nick != profiles[i].nick,
    ensures
        profile_for_nick(profiles, profiles[i].nick) == Some(profiles[i]),
{
    let p = |q: ProfileView| q.nick == profiles[i].nick;
    lemma_first_from(profiles, p, 0);
    assert(p(profiles[i]));
    let k = first_index(profiles, p)->0;
    if k < i {
        assert(profiles[k].nick != profiles[i].nick);
    }
}

/// The user behind a display name is the one person who has it.
pub proof fn lone_display_names_name_their_user(candidates: Seq<CandidateView>, i: int)
    requires
        0 <= i < candidates.len(),
        forall|j: int|
            0 <= j < candidates.len() && j != i ==> (#[trigger] candidates[j]).display_name
                != candidates[i].display_name,
    ensures
        user_id_for_nick(candidates, candidates[i].display_name) == Some(candidates[i].user_id),
{
    let p = |c: CandidateView| c.display_name == candidates[i].display_name;
    lemma_first_from(candidates, p, 0);
    assert(p(candidates[i]));
    let k = first_index(candidates, p)->0;
    if k != i {
        assert(candidates[k].display_name != candidates[i].display_name);
    }
    lemma_first_from(candidates, p, i + 1);
    match first_from(candidates, p, i + 1) {
        Some(j) => {
            assert(candidates[j].display_name != candidates[i].display_name);
        },
        None => {},
    }
}

/// The card of a sender is that of the person who wrote.
pub proof fn cards_show_who_wrote(
    buffer_id: Seq<char>,
    server: Seq<char>,
    profiles: Seq<ProfileView>,
    nicks: Seq<NickView>,
    i: int,
)
    requires
        0 <= i < profiles.len(),
        forall|j: int| 0 <= j < i ==> (#[trigger] profiles[j]).nick != profiles[i].nick,
    ensures
        ({
            let card = sender_card(buffer_id, profiles[i].nick, server, true, profiles, nicks);
            &&& card is Some
            &&& card->0.matrix == Some(profiles[i])
            &&& card->0.matrix_user_id == Some(profiles[i].user_id)
            &&& card->0.nick == profiles[i].nick
            &&& card->0.buffer_id == buffer_id && card->0.server == server && card->0.is_matrix
        }),
{
    profiles_are_found_by_nick(profiles, i);
}

/// A message to a person goes to their own user id.
pub proof fn messages_go_to_the_user(card: CardView)
    ensures
        card.is_matrix && card.matrix is Some ==> query_target(card) == Some(
            card.matrix->0.user_id,
        ),
        card.is_matrix && card.matrix is None && card.matrix_user_id is Some ==> query_target(card)
            == card.matrix_user_id,
        !card.is_matrix ==> query_target(card) is None,
        card.matrix is Some ==> card_person(card) == Some(
            CandidateView {
                display_name: card.matrix->0.display_name,
                user_id: card.matrix->0.user_id,
            },
        ),
        card.matrix is None && card.matrix_user_id is Some ==> card_person(card) == Some(
            CandidateView { display_name: card.nick, user_id: card.matrix_user_id->0 },
        ),
{
}

/// An identity is mentioned with its own user id.
pub proof fn identities_are_mentioned_as_themselves(identity: IdentityView, nick: Seq<char>)
    ensures
        identity_person(identity, nick).user_id == identity.user_id,
        identity.profile is Some ==> identity_person(identity, nick).display_name
            == identity.profile->0.display_name,
        identity.profile is None ==> identity_person(identity, nick).display_name == nick,
{
}

/// A nick is listed with its rank before its name, without colours where it is
/// away.
pub proof fn nicks_are_listed_with_their_rank(
    nick: NickView,
    name: Seq<char>,
    colors: NickColors,
)
    ensures
        nick.away ==> nick_line(nick, name, colors) == nick.prefix + name,
        !nick.away ==> nick_line(nick, name, NickColors::Plain) == nick.prefix + name,
        !nick.away ==> nick_line(nick, name, NickColors::Relay) == nick.color_ansi + (nick.prefix
            + name),
        ends_with(nick_line(nick, name, colors), nick.prefix + name),
{
    let text = nick.prefix + name;
    let line = nick_line(nick, name, colors);
    let n = line.len();
    assert(line.subrange(n - text.len(), n as int) =~= text);
}

/// A person who writes over a bridge is shown by their nick and network.
pub proof fn bridged_people_are_shown_by_nick(network: Seq<char>, nick: Seq<char>)
    requires
        network.len() > 0,
        nick.len() > 0,
        !has_space(network),
        !has_space(nick),
        forall|i: int| 0 <= i < network.len() ==> #[trigger] network[i] != '.',
    ensures
        bridged("irc_"@ + network + ".chat_"@ + nick) == Some((nick, network)),
        sender_label("irc_"@ + network + ".chat_"@ + nick) == nick + " ·"@ + network,
{
    reveal_strlit("irc_");
    reveal_strlit(".chat_");
    let prefix = "irc_"@ + network + ".chat_"@ + nick;
    let rest = network + ".chat_"@ + nick;
    assert(prefix[0] == 'i');
    assert(rank_len(prefix) == 0);
    assert(prefix.skip(0) =~= prefix);
    assert(prefix.subrange(0, 4) =~= "irc_"@);
    assert(prefix.skip(4) =~= rest);
    let at = network.len() as int;
    assert(rest.subrange(at, at + 6) =~= ".chat_"@);
    lemma_find_from(rest, ".chat_"@, 0);
    assert(occurs_at(rest, ".chat_"@, at));
    let found = find_from(rest, ".chat_"@, 0)->0;
    if found < at {
        assert(rest.subrange(found, found + 6)[0] == rest[found]);
        assert(rest[found] == network[found]);
    }
    assert(rest.take(at) =~= network);
    assert(rest.skip(at + 6) =~= nick);
    assert(prefix.take(0) + nick =~= nick);
}

} // verus!
