//! The catalogue of challenges the bot offers.
use vstd::prelude::*;
use crate::models::{Ctf, CtfView};
use crate::manager::{ctfs_view, named_ctf};
use crate::search::{first_of, lemma_first_at};

verus! {

/// A challenge as values, from its image, identifier, objective and flag.
pub open spec fn ctf_entry(image: &str, id: &str, objective: &str, flag: &str) -> CtfView {
    CtfView { image: image@, id: id@, objective: objective@, flag: flag@ }
}

/// The challenges the bot offers, in the order they are listed.
pub open spec fn catalog() -> Seq<CtfView> {
    seq![
        ctf_entry("ipvfletch/kiddoctf:latest", "linux-i", "hidden file", "FLAG1_31337"),
        ctf_entry("ipvfletch/kiddoctf:latest", "linux-ii", "hidden file", "FLAG2_42448"),
        ctf_entry("ipvfletch/kiddoctf:latest", "linux-iii", "grep tmp log", "FLAG3_55352"),
        ctf_entry("ipvfletch/kiddoctf:latest", "base64", "base64 decode", "FLAG4_63992"),
        ctf_entry("ipvfletch/kiddoctf:latest", "linux-iv", "use nc", "FLAG5_11314"),
        ctf_entry("ipvfletch/kiddoctf:latest", "user-id", "from user", "FLAG6_41442"),
        ctf_entry("ipvfletch/kiddoctf:latest", "linux-vi", "from user dir flags", "FLAG7_55241"),
        ctf_entry("ipvfletch/kiddoctf:latest", "networking", "routing table", "172.17.0.1"),
        ctf_entry("ipvfletch/kiddoctf:latest", "web-service", "from web service", "FLAG9_99382"),
        ctf_entry("ipvfletch/kiddoctf:latest", "website", "from website", "FLAG10_45776"),
        ctf_entry("ipvfletch/kiddoctf:latest", "filetype", "from oddfile", "FLAG12_552412"),
        ctf_entry("ipvfletch/kiddoctf:latest", "nmap", "from nmap", "Elite"),
        ctf_entry("ipvfletch/kiddoctf:latest", "tcpdump", "from tcpdump", " FLAG14_13370"),
    ]
}

fn entry(image: &str, id: &str, objective: &str, flag: &str) -> (c: Ctf)
    ensures
        c@ == ctf_entry(image, id, objective, flag),
{
    Ctf { image: image.to_owned(), id: id.to_owned(), objective: objective.to_owned(), flag: flag.to_owned() }
}

/// The catalogue of challenges.
pub fn get_ctfs() -> (r: Vec<Ctf>)
    ensures
        ctfs_view(r@) == catalog(),
        forall|i: int, j: int| 0 <= i < j < r@.len() ==> #[trigger] r@[i].id@ != #[trigger] r@[j].id@,
        ctfs_view(r@).map_values(|c: CtfView| c.id) == seq!["linux-i"@, "linux-ii"@, "linux-iii"@, "base64"@, "linux-iv"@, "user-id"@, "linux-vi"@, "networking"@, "web-service"@, "website"@, "filetype"@, "nmap"@, "tcpdump"@],
        first_of(ctfs_view(r@), named_ctf("linux-i"@)) == Some(CtfView {
            image: "ipvfletch/kiddoctf:latest"@,
            id: "linux-i"@,
            objective: "hidden file"@,
            flag: "FLAG1_31337"@,
        }),
        first_of(ctfs_view(r@), named_ctf("linux-ii"@)) == Some(CtfView {
            image: "ipvfletch/kiddoctf:latest"@,
            id: "linux-ii"@,
            objective: "hidden file"@,
            flag: "FLAG2_42448"@,
        }),
        first_of(ctfs_view(r@), named_ctf("linux-iii"@)) == Some(CtfView {
            image: "ipvfletch/kiddoctf:latest"@,
            id: "linux-iii"@,
            objective: "grep tmp log"@,
            flag: "FLAG3_55352"@,
        }),
        first_of(ctfs_view(r@), named_ctf("base64"@)) == Some(CtfView {
            image: "ipvfletch/kiddoctf:latest"@,
            id: "base64"@,
            objective: "base64 decode"@,
            flag: "FLAG4_63992"@,
        }),
        first_of(ctfs_view(r@), named_ctf("linux-iv"@)) == Some(CtfView {
            image: "ipvfletch/kiddoctf:latest"@,
            id: "linux-iv"@,
            objective: "use nc"@,
            flag: "FLAG5_11314"@,
        }),
        first_of(ctfs_view(r@), named_ctf("user-id"@)) == Some(CtfView {
            image: "ipvfletch/kiddoctf:latest"@,
            id: "user-id"@,
            objective: "from user"@,
            flag: "FLAG6_41442"@,
        }),
        first_of(ctfs_view(r@), named_ctf("linux-vi"@)) == Some(CtfView {
            image: "ipvfletch/kiddoctf:latest"@,
            id: "linux-vi"@,
            objective: "from user dir flags"@,
            flag: "FLAG7_55241"@,
        }),
        first_of(ctfs_view(r@), named_ctf("networking"@)) == Some(CtfView {
            image: "ipvfletch/kiddoctf:latest"@,
            id: "networking"@,
            objective: "routing table"@,
            flag: "172.17.0.1"@,
        }),
        first_of(ctfs_view(r@), named_ctf("web-service"@)) == Some(CtfView {
            image: "ipvfletch/kiddoctf:latest"@,
            id: "web-service"@,
            objective: "from web service"@,
            flag: "FLAG9_99382"@,
        }),
        first_of(ctfs_view(r@), named_ctf("website"@)) == Some(CtfView {
            image: "ipvfletch/kiddoctf:latest"@,
            id: "website"@,
            objective: "from website"@,
            flag: "FLAG10_45776"@,
        }),
        first_of(ctfs_view(r@), named_ctf("filetype"@)) == Some(CtfView {
            image: "ipvfletch/kiddoctf:latest"@,
            id: "filetype"@,
            objective: "from oddfile"@,
            flag: "FLAG12_552412"@,
        }),
        first_of(ctfs_view(r@), named_ctf("nmap"@)) == Some(CtfView {
            image: "ipvfletch/kiddoctf:latest"@,
            id: "nmap"@,
            objective: "from nmap"@,
            flag: "Elite"@,
        }),
        first_of(ctfs_view(r@), named_ctf("tcpdump"@)) == Some(CtfView {
            image: "ipvfletch/kiddoctf:latest"@,
            id: "tcpdump"@,
            objective: "from tcpdump"@,
            flag: " FLAG14_13370"@,
        }),
{
    let mut ctfs: Vec<Ctf> = Vec::new();
    ctfs.push(entry("ipvfletch/kiddoctf:latest", "linux-i", "hidden file", "FLAG1_31337"));
    ctfs.push(entry("ipvfletch/kiddoctf:latest", "linux-ii", "hidden file", "FLAG2_42448"));
    ctfs.push(entry("ipvfletch/kiddoctf:latest", "linux-iii", "grep tmp log", "FLAG3_55352"));
    ctfs.push(entry("ipvfletch/kiddoctf:latest", "base64", "base64 decode", "FLAG4_63992"));
    ctfs.push(entry("ipvfletch/kiddoctf:latest", "linux-iv", "use nc", "FLAG5_11314"));
    ctfs.push(entry("ipvfletch/kiddoctf:latest", "user-id", "from user", "FLAG6_41442"));
    ctfs.push(entry("ipvfletch/kiddoctf:latest", "linux-vi", "from user dir flags", "FLAG7_55241"));
    ctfs.push(entry("ipvfletch/kiddoctf:latest", "networking", "routing table", "172.17.0.1"));
    ctfs.push(entry("ipvfletch/kiddoctf:latest", "web-service", "from web service", "FLAG9_99382"));
    ctfs.push(entry("ipvfletch/kiddoctf:latest", "website", "from website", "FLAG10_45776"));
    ctfs.push(entry("ipvfletch/kiddoctf:latest", "filetype", "from oddfile", "FLAG12_552412"));
    ctfs.push(entry("ipvfletch/kiddoctf:latest", "nmap", "from nmap", "Elite"));
    ctfs.push(entry("ipvfletch/kiddoctf:latest", "tcpdump", "from tcpdump", " FLAG14_13370"));
    assert(ctfs_view(ctfs@) =~= catalog());
    proof {
        lemma_catalog_contents();
        lemma_catalog_ids_distinct();
        assert forall|i: int, j: int| 0 <= i < j < ctfs@.len() implies #[trigger] ctfs@[i].id@
            != #[trigger] ctfs@[j].id@ by {
            assert(catalog()[i].id == ctfs@[i].id@);
            assert(catalog()[j].id == ctfs@[j].id@);
        }
    }
    ctfs
}

/// No two challenges of the catalogue share an identifier.
pub proof fn lemma_catalog_ids_distinct()
    ensures
        forall|i: int, j: int|
            0 <= i < j < catalog().len() ==> #[trigger] catalog()[i].id != #[trigger] catalog()[j].id,
{
    let c = catalog();
    assert(c.len() == 13);
    assert(c[0].id == "linux-i"@);
    assert(c[1].id == "linux-ii"@);
    assert(c[2].id == "linux-iii"@);
    assert(c[3].id == "base64"@);
    assert(c[4].id == "linux-iv"@);
    assert(c[5].id == "user-id"@);
    assert(c[6].id == "linux-vi"@);
    assert(c[7].id == "networking"@);
    assert(c[8].id == "web-service"@);
    assert(c[9].id == "website"@);
    assert(c[10].id == "filetype"@);
    assert(c[11].id == "nmap"@);
    assert(c[12].id == "tcpdump"@);
    reveal_strlit("linux-i");
    reveal_strlit("linux-ii");
    reveal_strlit("linux-iii");
    reveal_strlit("base64");
    reveal_strlit("linux-iv");
    reveal_strlit("user-id");
    reveal_strlit("linux-vi");
    reveal_strlit("networking");
    reveal_strlit("web-service");
    reveal_strlit("website");
    reveal_strlit("filetype");
    reveal_strlit("nmap");
    reveal_strlit("tcpdump");
    assert("linux-i"@.len() != "linux-ii"@.len());
    assert("linux-i"@.len() != "linux-iii"@.len());
    assert("linux-i"@.len() != "base64"@.len());
    assert("linux-i"@.len() != "linux-iv"@.len());
    assert("linux-i"@[0] != "user-id"@[0]);
    assert("linux-i"@.len() != "linux-vi"@.len());
    assert("linux-i"@.len() != "networking"@.len());
    assert("linux-i"@.len() != "web-service"@.len());
    assert("linux-i"@[0] != "website"@[0]);
    assert("linux-i"@.len() != "filetype"@.len());
    assert("linux-i"@.len() != "nmap"@.len());
    assert("linux-i"@[0] != "tcpdump"@[0]);
    assert("linux-ii"@.len() != "linux-iii"@.len());
    assert("linux-ii"@.len() != "base64"@.len());
    assert("linux-ii"@[7] != "linux-iv"@[7]);
    assert("linux-ii"@.len() != "user-id"@.len());
    assert("linux-ii"@[6] != "linux-vi"@[6]);
    assert("linux-ii"@.len() != "networking"@.len());
    assert("linux-ii"@.len() != "web-service"@.len());
    assert("linux-ii"@.len() != "website"@.len());
    assert("linux-ii"@[0] != "filetype"@[0]);
    assert("linux-ii"@.len() != "nmap"@.len());
    assert("linux-ii"@.len() != "tcpdump"@.len());
    assert("linux-iii"@.len() != "base64"@.len());
    assert("linux-iii"@.len() != "linux-iv"@.len());
    assert("linux-iii"@.len() != "user-id"@.len());
    assert("linux-iii"@.len() != "linux-vi"@.len());
    assert("linux-iii"@.len() != "networking"@.len());
    assert("linux-iii"@.len() != "web-service"@.len());
    assert("linux-iii"@.len() != "website"@.len());
    assert("linux-iii"@.len() != "filetype"@.len());
    assert("linux-iii"@.len() != "nmap"@.len());
    assert("linux-iii"@.len() != "tcpdump"@.len());
    assert("base64"@.len() != "linux-iv"@.len());
    assert("base64"@.len() != "user-id"@.len());
    assert("base64"@.len() != "linux-vi"@.len());
    assert("base64"@.len() != "networking"@.len());
    assert("base64"@.len() != "web-service"@.len());
    assert("base64"@.len() != "website"@.len());
    assert("base64"@.len() != "filetype"@.len());
    assert("base64"@.len() != "nmap"@.len());
    assert("base64"@.len() != "tcpdump"@.len());
    assert("linux-iv"@.len() != "user-id"@.len());
    assert("linux-iv"@[6] != "linux-vi"@[6]);
    assert("linux-iv"@.len() != "networking"@.len());
    assert("linux-iv"@.len() != "web-service"@.len());
    assert("linux-iv"@.len() != "website"@.len());
    assert("linux-iv"@[0] != "filetype"@[0]);
    assert("linux-iv"@.len() != "nmap"@.len());
    assert("linux-iv"@.len() != "tcpdump"@.len());
    assert("user-id"@.len() != "linux-vi"@.len());
    assert("user-id"@.len() != "networking"@.len());
    assert("user-id"@.len() != "web-service"@.len());
    assert("user-id"@[0] != "website"@[0]);
    assert("user-id"@.len() != "filetype"@.len());
    assert("user-id"@.len() != "nmap"@.len());
    assert("user-id"@[0] != "tcpdump"@[0]);
    assert("linux-vi"@.len() != "networking"@.len());
    assert("linux-vi"@.len() != "web-service"@.len());
    assert("linux-vi"@.len() != "website"@.len());
    assert("linux-vi"@[0] != "filetype"@[0]);
    assert("linux-vi"@.len() != "nmap"@.len());
    assert("linux-vi"@.len() != "tcpdump"@.len());
    assert("networking"@.len() != "web-service"@.len());
    assert("networking"@.len() != "website"@.len());
    assert("networking"@.len() != "filetype"@.len());
    assert("networking"@.len() != "nmap"@.len());
    assert("networking"@.len() != "tcpdump"@.len());
    assert("web-service"@.len() != "website"@.len());
    assert("web-service"@.len() != "filetype"@.len());
    assert("web-service"@.len() != "nmap"@.len());
    assert("web-service"@.len() != "tcpdump"@.len());
    assert("website"@.len() != "filetype"@.len());
    assert("website"@.len() != "nmap"@.len());
    assert("website"@[0] != "tcpdump"@[0]);
    assert("filetype"@.len() != "nmap"@.len());
    assert("filetype"@.len() != "tcpdump"@.len());
    assert("nmap"@.len() != "tcpdump"@.len());
    assert forall|i: int, j: int| 0 <= i < j < c.len() implies #[trigger] c[i].id != #[trigger] c[j].id by {
        assert(i == 0 || i == 1 || i == 2 || i == 3 || i == 4 || i == 5 || i == 6 || i == 7 || i == 8 || i == 9 || i == 10 || i == 11 || i == 12);
        assert(j == 0 || j == 1 || j == 2 || j == 3 || j == 4 || j == 5 || j == 6 || j == 7 || j == 8 || j == 9 || j == 10 || j == 11 || j == 12);
    }
}

/// In the catalogue, the challenge found under an identifier is the one at its
/// position.
proof fn lemma_catalog_lookup(k: int)
    requires
        0 <= k < catalog().len(),
    ensures
        first_of(catalog(), named_ctf(catalog()[k].id)) == Some(catalog()[k]),
{
    lemma_catalog_ids_distinct();
    let c = catalog();
    assert forall|j: int| 0 <= j < k implies !named_ctf(c[k].id)(#[trigger] c[j]) by {
        assert(c[j].id != c[k].id);
    }
    lemma_first_at(c, named_ctf(c[k].id), k);
}

/// The catalogue offers these challenges, in this order, and starting a
/// challenge by its identifier finds its image, objective and flag.
pub proof fn lemma_catalog_contents()
    ensures
        catalog().map_values(|c: CtfView| c.id) == seq!["linux-i"@, "linux-ii"@, "linux-iii"@, "base64"@, "linux-iv"@, "user-id"@, "linux-vi"@, "networking"@, "web-service"@, "website"@, "filetype"@, "nmap"@, "tcpdump"@],
        first_of(catalog(), named_ctf("linux-i"@)) == Some(CtfView {
            image: "ipvfletch/kiddoctf:latest"@,
            id: "linux-i"@,
            objective: "hidden file"@,
            flag: "FLAG1_31337"@,
        }),
        first_of(catalog(), named_ctf("linux-ii"@)) == Some(CtfView {
            image: "ipvfletch/kiddoctf:latest"@,
            id: "linux-ii"@,
            objective: "hidden file"@,
            flag: "FLAG2_42448"@,
        }),
        first_of(catalog(), named_ctf("linux-iii"@)) == Some(CtfView {
            image: "ipvfletch/kiddoctf:latest"@,
            id: "linux-iii"@,
            objective: "grep tmp log"@,
            flag: "FLAG3_55352"@,
        }),
        first_of(catalog(), named_ctf("base64"@)) == Some(CtfView {
            image: "ipvfletch/kiddoctf:latest"@,
            id: "base64"@,
            objective: "base64 decode"@,
            flag: "FLAG4_63992"@,
        }),
        first_of(catalog(), named_ctf("linux-iv"@)) == Some(CtfView {
            image: "ipvfletch/kiddoctf:latest"@,
            id: "linux-iv"@,
            objective: "use nc"@,
            flag: "FLAG5_11314"@,
        }),
        first_of(catalog(), named_ctf("user-id"@)) == Some(CtfView {
            image: "ipvfletch/kiddoctf:latest"@,
            id: "user-id"@,
            objective: "from user"@,
            flag: "FLAG6_41442"@,
        }),
        first_of(catalog(), named_ctf("linux-vi"@)) == Some(CtfView {
            image: "ipvfletch/kiddoctf:latest"@,
            id: "linux-vi"@,
            objective: "from user dir flags"@,
            flag: "FLAG7_55241"@,
        }),
        first_of(catalog(), named_ctf("networking"@)) == Some(CtfView {
            image: "ipvfletch/kiddoctf:latest"@,
            id: "networking"@,
            objective: "routing table"@,
            flag: "172.17.0.1"@,
        }),
        first_of(catalog(), named_ctf("web-service"@)) == Some(CtfView {
            image: "ipvfletch/kiddoctf:latest"@,
            id: "web-service"@,
            objective: "from web service"@,
            flag: "FLAG9_99382"@,
        }),
        first_of(catalog(), named_ctf("website"@)) == Some(CtfView {
            image: "ipvfletch/kiddoctf:latest"@,
            id: "website"@,
            objective: "from website"@,
            flag: "FLAG10_45776"@,
        }),
        first_of(catalog(), named_ctf("filetype"@)) == Some(CtfView {
            image: "ipvfletch/kiddoctf:latest"@,
            id: "filetype"@,
            objective: "from oddfile"@,
            flag: "FLAG12_552412"@,
        }),
        first_of(catalog(), named_ctf("nmap"@)) == Some(CtfView {
            image: "ipvfletch/kiddoctf:latest"@,
            id: "nmap"@,
            objective: "from nmap"@,
            flag: "Elite"@,
        }),
        first_of(catalog(), named_ctf("tcpdump"@)) == Some(CtfView {
            image: "ipvfletch/kiddoctf:latest"@,
            id: "tcpdump"@,
            objective: "from tcpdump"@,
            flag: " FLAG14_13370"@,
        }),
{
    assert(catalog().map_values(|c: CtfView| c.id) =~= seq!["linux-i"@, "linux-ii"@, "linux-iii"@, "base64"@, "linux-iv"@, "user-id"@, "linux-vi"@, "networking"@, "web-service"@, "website"@, "filetype"@, "nmap"@, "tcpdump"@]);
    lemma_catalog_lookup(0);
    lemma_catalog_lookup(1);
    lemma_catalog_lookup(2);
    lemma_catalog_lookup(3);
    lemma_catalog_lookup(4);
    lemma_catalog_lookup(5);
    lemma_catalog_lookup(6);
    lemma_catalog_lookup(7);
    lemma_catalog_lookup(8);
    lemma_catalog_lookup(9);
    lemma_catalog_lookup(10);
    lemma_catalog_lookup(11);
    lemma_catalog_lookup(12);
}

} // verus!
