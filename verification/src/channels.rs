//! The channels that can be listened to.

use crate::error::RadioError;
use vstd::prelude::*;

verus! {

/// A radio channel: what it is called and where its stream is.
#[derive(Debug)]
pub struct Channel {
    pub name: String,
    pub url: String,
}

impl Channel {
    /// The name and the address.
    pub open spec fn pair(self) -> (Seq<char>, Seq<char>) {
        (self.name@, self.url@)
    }
}

impl Clone for Channel {
    fn clone(&self) -> (copy: Self)
        ensures
            copy.pair() == self.pair(),
    {
        Channel { name: self.name.clone(), url: self.url.clone() }
    }
}

/// The channels of a list as names and addresses.
pub open spec fn channel_pairs(channels: Seq<Channel>) -> Seq<(Seq<char>, Seq<char>)> {
    Seq::new(channels.len(), |i: int| channels[i].pair())
}

/// A channel with a given name and address.
pub fn channel(name: &str, url: &str) -> (channel: Channel)
    ensures
        channel.pair() == (name@, url@),
        channel.name@ == name@,
        channel.url@ == url@,
{
    Channel { name: name.to_owned(), url: url.to_owned() }
}

/// The channels of Sveriges Radio.
pub open spec fn stations() -> Seq<(Seq<char>, Seq<char>)> {
    seq![
        ("Ekot sänder direkt"@, "https://live1.sr.se/ekotdirekt-mp3-96"@),
        ("P1"@, "https://live1.sr.se/p1-mp3-96"@),
        ("P2"@, "https://live1.sr.se/p2-mp3-96"@),
        ("P3"@, "https://live1.sr.se/p3-mp3-96"@),
        ("P3 Din gata"@, "https://live1.sr.se/dingata-mp3-96"@),
        ("P4 Blekinge"@, "https://live1.sr.se/p4blek-mp3-96"@),
        ("P4 Dalarna"@, "https://live1.sr.se/p4dala-mp3-96"@),
        ("P4 Digital"@, "https://live1.sr.se/p4digi-mp3-96"@),
        ("P4 Gotland"@, "https://live1.sr.se/p4gotl-mp3-96"@),
        ("P4 Gävleborg"@, "https://live1.sr.se/p4gavl-mp3-96"@),
        ("P4 Göteborg"@, "https://live1.sr.se/p4gbg-mp3-96"@),
        ("P4 Halland"@, "https://live1.sr.se/p4hall-mp3-96"@),
        ("P4 Jämtland"@, "https://live1.sr.se/p4jmtl-mp3-96"@),
        ("P4 Jönköping"@, "https://live1.sr.se/p4jkpg-mp3-96"@),
        ("P4 Kalmar"@, "https://live1.sr.se/p4kalm-mp3-96"@),
        ("P4 Kristianstad"@, "https://live1.sr.se/p4krist-mp3-96"@),
        ("P4 Kronoberg"@, "https://live1.sr.se/p4kron-mp3-96"@),
        ("P4 Malmöhus"@, "https://live1.sr.se/p4malm-mp3-96"@),
        ("P4 Norrbotten"@, "https://live1.sr.se/p4nbtn-mp3-96"@),
        ("P4 Plus"@, "https://live1.sr.se/p4plus-mp3-96"@),
        ("P4 Sjuhärad"@, "https://live1.sr.se/p4sju-mp3-96"@),
        ("P4 Skaraborg"@, "https://live1.sr.se/p4skbg-mp3-96"@),
        ("P4 Stockholm"@, "https://live1.sr.se/p4sth-mp3-96"@),
        ("P4 Sörmland"@, "https://live1.sr.se/p4sorm-mp3-96"@),
        ("P4 Uppland"@, "https://live1.sr.se/p4uppl-mp3-96"@),
        ("P4 Värmland"@, "https://live1.sr.se/p4vrml-mp3-96"@),
        ("P4 Väst"@, "https://live1.sr.se/p4vast-mp3-96"@),
        ("P4 Västerbotten"@, "https://live1.sr.se/p4vbtn-mp3-96"@),
        ("P4 Västernorrland"@, "https://live1.sr.se/p4vnrl-mp3-96"@),
        ("P4 Västmanland"@, "https://live1.sr.se/p4vstm-mp3-96"@),
        ("P4 Örebro"@, "https://live1.sr.se/p4oreb-mp3-96"@),
        ("P4 Östergötland"@, "https://live1.sr.se/p4ostg-mp3-96"@),
        ("P6"@, "https://live1.sr.se/p6-mp3-96"@),
        ("Radioapans knattekanal"@, "https://live1.sr.se/knattekanalen-mp3-96"@),
        ("Sameradion"@, "https://live1.sr.se/sameradion-mp3-96"@),
        ("Sveriges Radio Finska"@, "https://live1.sr.se/finska-mp3-96"@),
    ]
}

/// The channels to choose from.
pub fn fetch_channels() -> (channels: Result<Vec<Channel>, RadioError>)
    ensures
        channels matches Ok(list) && channel_pairs(list@) == stations(),
        channels matches Ok(list) && list@.len() == stations().len() && forall|i: int|
            0 <= i < list@.len() ==> (#[trigger] list@[i]).name@ == stations()[i].0
                && list@[i].url@ == stations()[i].1,
{
    let list: Vec<Channel> = vec![
            channel("Ekot sänder direkt", "https://live1.sr.se/ekotdirekt-mp3-96"),
            channel("P1", "https://live1.sr.se/p1-mp3-96"),
            channel("P2", "https://live1.sr.se/p2-mp3-96"),
            channel("P3", "https://live1.sr.se/p3-mp3-96"),
            channel("P3 Din gata", "https://live1.sr.se/dingata-mp3-96"),
            channel("P4 Blekinge", "https://live1.sr.se/p4blek-mp3-96"),
            channel("P4 Dalarna", "https://live1.sr.se/p4dala-mp3-96"),
            channel("P4 Digital", "https://live1.sr.se/p4digi-mp3-96"),
            channel("P4 Gotland", "https://live1.sr.se/p4gotl-mp3-96"),
            channel("P4 Gävleborg", "https://live1.sr.se/p4gavl-mp3-96"),
            channel("P4 Göteborg", "https://live1.sr.se/p4gbg-mp3-96"),
            channel("P4 Halland", "https://live1.sr.se/p4hall-mp3-96"),
            channel("P4 Jämtland", "https://live1.sr.se/p4jmtl-mp3-96"),
            channel("P4 Jönköping", "https://live1.sr.se/p4jkpg-mp3-96"),
            channel("P4 Kalmar", "https://live1.sr.se/p4kalm-mp3-96"),
            channel("P4 Kristianstad", "https://live1.sr.se/p4krist-mp3-96"),
            channel("P4 Kronoberg", "https://live1.sr.se/p4kron-mp3-96"),
            channel("P4 Malmöhus", "https://live1.sr.se/p4malm-mp3-96"),
            channel("P4 Norrbotten", "https://live1.sr.se/p4nbtn-mp3-96"),
            channel("P4 Plus", "https://live1.sr.se/p4plus-mp3-96"),
            channel("P4 Sjuhärad", "https://live1.sr.se/p4sju-mp3-96"),
            channel("P4 Skaraborg", "https://live1.sr.se/p4skbg-mp3-96"),
            channel("P4 Stockholm", "https://live1.sr.se/p4sth-mp3-96"),
            channel("P4 Sörmland", "https://live1.sr.se/p4sorm-mp3-96"),
            channel("P4 Uppland", "https://live1.sr.se/p4uppl-mp3-96"),
            channel("P4 Värmland", "https://live1.sr.se/p4vrml-mp3-96"),
            channel("P4 Väst", "https://live1.sr.se/p4vast-mp3-96"),
            channel("P4 Västerbotten", "https://live1.sr.se/p4vbtn-mp3-96"),
            channel("P4 Västernorrland", "https://live1.sr.se/p4vnrl-mp3-96"),
            channel("P4 Västmanland", "https://live1.sr.se/p4vstm-mp3-96"),
            channel("P4 Örebro", "https://live1.sr.se/p4oreb-mp3-96"),
            channel("P4 Östergötland", "https://live1.sr.se/p4ostg-mp3-96"),
            channel("P6", "https://live1.sr.se/p6-mp3-96"),
            channel("Radioapans knattekanal", "https://live1.sr.se/knattekanalen-mp3-96"),
            channel("Sameradion", "https://live1.sr.se/sameradion-mp3-96"),
            channel("Sveriges Radio Finska", "https://live1.sr.se/finska-mp3-96"),
    ];
    assert(channel_pairs(list@) =~= stations());
    assert forall|i: int| 0 <= i < list@.len() implies (#[trigger] list@[i]).name@ == stations()[i].0
        && list@[i].url@ == stations()[i].1 by {
        assert(channel_pairs(list@)[i] == list@[i].pair());
    }
    Ok(list)
}

/// Every channel is listed under its own name with its own stream, in this order.
pub proof fn channels_have_their_streams()
    ensures
        stations().len() == 36,
        stations()[0] == ("Ekot sänder direkt"@, "https://live1.sr.se/ekotdirekt-mp3-96"@),
        stations()[1] == ("P1"@, "https://live1.sr.se/p1-mp3-96"@),
        stations()[2] == ("P2"@, "https://live1.sr.se/p2-mp3-96"@),
        stations()[3] == ("P3"@, "https://live1.sr.se/p3-mp3-96"@),
        stations()[4] == ("P3 Din gata"@, "https://live1.sr.se/dingata-mp3-96"@),
        stations()[5] == ("P4 Blekinge"@, "https://live1.sr.se/p4blek-mp3-96"@),
        stations()[6] == ("P4 Dalarna"@, "https://live1.sr.se/p4dala-mp3-96"@),
        stations()[7] == ("P4 Digital"@, "https://live1.sr.se/p4digi-mp3-96"@),
        stations()[8] == ("P4 Gotland"@, "https://live1.sr.se/p4gotl-mp3-96"@),
        stations()[9] == ("P4 Gävleborg"@, "https://live1.sr.se/p4gavl-mp3-96"@),
        stations()[10] == ("P4 Göteborg"@, "https://live1.sr.se/p4gbg-mp3-96"@),
        stations()[11] == ("P4 Halland"@, "https://live1.sr.se/p4hall-mp3-96"@),
        stations()[12] == ("P4 Jämtland"@, "https://live1.sr.se/p4jmtl-mp3-96"@),
        stations()[13] == ("P4 Jönköping"@, "https://live1.sr.se/p4jkpg-mp3-96"@),
        stations()[14] == ("P4 Kalmar"@, "https://live1.sr.se/p4kalm-mp3-96"@),
        stations()[15] == ("P4 Kristianstad"@, "https://live1.sr.se/p4krist-mp3-96"@),
        stations()[16] == ("P4 Kronoberg"@, "https://live1.sr.se/p4kron-mp3-96"@),
        stations()[17] == ("P4 Malmöhus"@, "https://live1.sr.se/p4malm-mp3-96"@),
        stations()[18] == ("P4 Norrbotten"@, "https://live1.sr.se/p4nbtn-mp3-96"@),
        stations()[19] == ("P4 Plus"@, "https://live1.sr.se/p4plus-mp3-96"@),
        stations()[20] == ("P4 Sjuhärad"@, "https://live1.sr.se/p4sju-mp3-96"@),
        stations()[21] == ("P4 Skaraborg"@, "https://live1.sr.se/p4skbg-mp3-96"@),
        stations()[22] == ("P4 Stockholm"@, "https://live1.sr.se/p4sth-mp3-96"@),
        stations()[23] == ("P4 Sörmland"@, "https://live1.sr.se/p4sorm-mp3-96"@),
        stations()[24] == ("P4 Uppland"@, "https://live1.sr.se/p4uppl-mp3-96"@),
        stations()[25] == ("P4 Värmland"@, "https://live1.sr.se/p4vrml-mp3-96"@),
        stations()[26] == ("P4 Väst"@, "https://live1.sr.se/p4vast-mp3-96"@),
        stations()[27] == ("P4 Västerbotten"@, "https://live1.sr.se/p4vbtn-mp3-96"@),
        stations()[28] == ("P4 Västernorrland"@, "https://live1.sr.se/p4vnrl-mp3-96"@),
        stations()[29] == ("P4 Västmanland"@, "https://live1.sr.se/p4vstm-mp3-96"@),
        stations()[30] == ("P4 Örebro"@, "https://live1.sr.se/p4oreb-mp3-96"@),
        stations()[31] == ("P4 Östergötland"@, "https://live1.sr.se/p4ostg-mp3-96"@),
        stations()[32] == ("P6"@, "https://live1.sr.se/p6-mp3-96"@),
        stations()[33] == ("Radioapans knattekanal"@, "https://live1.sr.se/knattekanalen-mp3-96"@),
        stations()[34] == ("Sameradion"@, "https://live1.sr.se/sameradion-mp3-96"@),
        stations()[35] == ("Sveriges Radio Finska"@, "https://live1.sr.se/finska-mp3-96"@),
{
}

/// Channels as mathematical values have their name and their address, one by one and in lists.
pub proof fn channels_are_seen_as_they_are(channels: Seq<Channel>, i: int)
    requires
        0 <= i < channels.len(),
    ensures
        channel_pairs(channels).len() == channels.len(),
        channel_pairs(channels)[i].0 == channels[i].name@,
        channel_pairs(channels)[i].1 == channels[i].url@,
        channels[i].pair() == (channels[i].name@, channels[i].url@),
{
}

} // verus!
