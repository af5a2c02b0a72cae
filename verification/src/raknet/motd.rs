//! The "message of the day" that a server advertises in its pong.
use crate::text::{
    decimal, decimal_value, is_decimal, lemma_decimal_parses_back, lemma_split_field, push_decimal,
    split_on,
};
use vstd::prelude::*;

verus! {

/// What a Bedrock server tells clients that ping it.
#[derive(Clone, Debug)]
pub struct Motd {
    pub server_name: String,
    pub protocol_version: u32,
    pub minecraft_version: String,
    pub player_count: u32,
    pub max_players: u32,
    pub server_guid: u64,
    pub world_name: String,
    pub game_mode: String,
    pub game_mode_id: u32,
    pub port_v4: u16,
    pub port_v6: u16,
}

impl Motd {
    /// The advertised text: `MCPE;` then each field, strings as they are and
    /// numbers in decimal, each followed by `;`.
    pub open spec fn spec_text(&self) -> Seq<char> {
        "MCPE;"@ + self.server_name@ + ";"@ + decimal(self.protocol_version as nat) + ";"@
            + self.minecraft_version@ + ";"@ + decimal(self.player_count as nat) + ";"@ + decimal(
            self.max_players as nat,
        ) + ";"@ + decimal(self.server_guid as nat) + ";"@ + self.world_name@ + ";"@
            + self.game_mode@ + ";"@ + decimal(self.game_mode_id as nat) + ";"@ + decimal(
            self.port_v4 as nat,
        ) + ";"@ + decimal(self.port_v6 as nat) + ";"@
    }

    /// The advertised text in UTF-8, as it goes on the wire.
    pub open spec fn spec_bytes(&self) -> Seq<u8> {
        vstd::utf8::encode_utf8(self.spec_text())
    }

    /// Writes out the advertised text.
    pub fn to_string(&self) -> (s: String)
        ensures
            s@ == self.spec_text(),
    {
        let mut s = String::from_str("MCPE;");
        s.append(self.server_name.as_str());
        s.append(";");
        push_decimal(&mut s, self.protocol_version as u64);
        s.append(";");
        s.append(self.minecraft_version.as_str());
        s.append(";");
        push_decimal(&mut s, self.player_count as u64);
        s.append(";");
        push_decimal(&mut s, self.max_players as u64);
        s.append(";");
        push_decimal(&mut s, self.server_guid);
        s.append(";");
        s.append(self.world_name.as_str());
        s.append(";");
        s.append(self.game_mode.as_str());
        s.append(";");
        push_decimal(&mut s, self.game_mode_id as u64);
        s.append(";");
        push_decimal(&mut s, self.port_v4 as u64);
        s.append(";");
        push_decimal(&mut s, self.port_v6 as u64);
        s.append(";");
        s
    }
}

/// Whether a text field can stand in the advertised text without being
/// mistaken for two fields.
pub open spec fn free_of_separator(s: Seq<char>) -> bool {
    !s.contains(';')
}

/// The advertised text reads back into its fields: split at `;`, it gives
/// thirteen pieces, `MCPE`, the eleven fields in order, and an empty last
/// piece. Each text field comes back as it was, provided it holds no `;`,
/// and each number comes back as decimal digits that spell it.
pub proof fn lemma_motd_text_reads_back(m: Motd)
    requires
        free_of_separator(m.server_name@),
        free_of_separator(m.minecraft_version@),
        free_of_separator(m.world_name@),
        free_of_separator(m.game_mode@),
    ensures
        ({
            let parts = split_on(m.spec_text(), ';');
            &&& parts.len() == 13
            &&& parts[0] == "MCPE"@
            &&& parts[1] == m.server_name@
            &&& is_decimal(parts[2]) && decimal_value(parts[2]) == m.protocol_version
            &&& parts[3] == m.minecraft_version@
            &&& is_decimal(parts[4]) && decimal_value(parts[4]) == m.player_count
            &&& is_decimal(parts[5]) && decimal_value(parts[5]) == m.max_players
            &&& is_decimal(parts[6]) && decimal_value(parts[6]) == m.server_guid
            &&& parts[7] == m.world_name@
            &&& parts[8] == m.game_mode@
            &&& is_decimal(parts[9]) && decimal_value(parts[9]) == m.game_mode_id
            &&& is_decimal(parts[10]) && decimal_value(parts[10]) == m.port_v4
            &&& is_decimal(parts[11]) && decimal_value(parts[11]) == m.port_v6
            &&& parts[12] == Seq::<char>::empty()
        }),
{
    reveal_strlit("MCPE;");
    reveal_strlit("MCPE");
    reveal_strlit(";");
    let sep = seq![';'];
    assert(";"@ =~= sep);
    let mcpe = "MCPE"@;
    assert(!mcpe.contains(';')) by {
        if mcpe.contains(';') {
            let i = choose|i: int| 0 <= i < mcpe.len() && mcpe[i] == ';';
            assert(mcpe[i] != ';');
        }
    }
    lemma_decimal_parses_back(m.protocol_version as nat);
    lemma_decimal_parses_back(m.player_count as nat);
    lemma_decimal_parses_back(m.max_players as nat);
    lemma_decimal_parses_back(m.server_guid as nat);
    lemma_decimal_parses_back(m.game_mode_id as nat);
    lemma_decimal_parses_back(m.port_v4 as nat);
    lemma_decimal_parses_back(m.port_v6 as nat);
    let d_pv = decimal(m.protocol_version as nat);
    let d_pc = decimal(m.player_count as nat);
    let d_mp = decimal(m.max_players as nat);
    let d_guid = decimal(m.server_guid as nat);
    let d_mode = decimal(m.game_mode_id as nat);
    let d_v4 = decimal(m.port_v4 as nat);
    let d_v6 = decimal(m.port_v6 as nat);

    let t0 = Seq::<char>::empty();
    let p0 = Seq::<Seq<char>>::empty();
    assert(split_on(t0, ';') =~= p0.push(Seq::<char>::empty()));
    lemma_split_field(t0, p0, mcpe, ';');
    let t1 = t0 + mcpe + sep;
    let p1 = p0.push(mcpe);
    assert(t1 =~= "MCPE;"@);
    lemma_split_field(t1, p1, m.server_name@, ';');
    let t2 = t1 + m.server_name@ + sep;
    let p2 = p1.push(m.server_name@);
    lemma_split_field(t2, p2, d_pv, ';');
    let t3 = t2 + d_pv + sep;
    let p3 = p2.push(d_pv);
    lemma_split_field(t3, p3, m.minecraft_version@, ';');
    let t4 = t3 + m.minecraft_version@ + sep;
    let p4 = p3.push(m.minecraft_version@);
    lemma_split_field(t4, p4, d_pc, ';');
    let t5 = t4 + d_pc + sep;
    let p5 = p4.push(d_pc);
    lemma_split_field(t5, p5, d_mp, ';');
    let t6 = t5 + d_mp + sep;
    let p6 = p5.push(d_mp);
    lemma_split_field(t6, p6, d_guid, ';');
    let t7 = t6 + d_guid + sep;
    let p7 = p6.push(d_guid);
    lemma_split_field(t7, p7, m.world_name@, ';');
    let t8 = t7 + m.world_name@ + sep;
    let p8 = p7.push(m.world_name@);
    lemma_split_field(t8, p8, m.game_mode@, ';');
    let t9 = t8 + m.game_mode@ + sep;
    let p9 = p8.push(m.game_mode@);
    lemma_split_field(t9, p9, d_mode, ';');
    let t10 = t9 + d_mode + sep;
    let p10 = p9.push(d_mode);
    lemma_split_field(t10, p10, d_v4, ';');
    let t11 = t10 + d_v4 + sep;
    let p11 = p10.push(d_v4);
    lemma_split_field(t11, p11, d_v6, ';');
    let t12 = t11 + d_v6 + sep;
    let p12 = p11.push(d_v6);
    assert(m.spec_text() == t12);
    let parts = p12.push(Seq::<char>::empty());
    assert(split_on(m.spec_text(), ';') == parts);
}

} // verus!
