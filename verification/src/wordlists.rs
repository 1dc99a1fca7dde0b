//! The wordlists bundled with the library, one per supported language.
//! Construction is explicit, word by word, so that the shape of each
//! list is known where the repository's guarantees need it.

use vstd::prelude::*;

verus! {

/// The English words, in list order.
pub open spec fn english_words_spec() -> Seq<Seq<char>> {
    seq![
        "about"@, "acid"@, "apple"@, "autumn"@, "basket"@, "beach"@, "bridge"@, "candle"@,
        "castle"@, "cloud"@, "copper"@, "dance"@, "desert"@, "dragon"@, "eagle"@, "ember"@,
        "falcon"@, "forest"@, "garden"@, "glacier"@, "hammer"@, "harbor"@, "island"@, "jungle"@,
        "kettle"@, "ladder"@, "lantern"@, "maple"@, "meadow"@, "mirror"@, "north"@, "ocean"@,
        "orchid"@, "pepper"@, "pillow"@, "quartz"@, "river"@, "saddle"@, "timber"@, "violet"@,
    ]
}

/// The Polish words, in list order.
pub open spec fn polish_words_spec() -> Seq<Seq<char>> {
    seq![
        "agrest"@, "balkon"@, "chleb"@, "deska"@, "dom"@, "drzewo"@, "dym"@, "gora"@,
        "granica"@, "jablko"@, "jesien"@, "kamien"@, "kino"@, "kogut"@, "komin"@, "kot"@,
        "krowa"@, "kwiat"@, "las"@, "lato"@, "lew"@, "lis"@, "lustro"@, "maslo"@,
        "miasto"@, "mleko"@, "morze"@, "most"@, "mysz"@, "niebo"@, "noc"@, "okno"@,
        "owca"@, "pies"@, "rzeka"@, "sosna"@,
    ]
}

/// The English wordlist.
pub fn english_words() -> (words: Vec<String>)
    ensures
        words@.map_values(|w: String| w@) == english_words_spec(),
{
    let mut words: Vec<String> = Vec::new();
    words.push(String::from_str("about"));
    words.push(String::from_str("acid"));
    words.push(String::from_str("apple"));
    words.push(String::from_str("autumn"));
    words.push(String::from_str("basket"));
    words.push(String::from_str("beach"));
    words.push(String::from_str("bridge"));
    words.push(String::from_str("candle"));
    words.push(String::from_str("castle"));
    words.push(String::from_str("cloud"));
    words.push(String::from_str("copper"));
    words.push(String::from_str("dance"));
    words.push(String::from_str("desert"));
    words.push(String::from_str("dragon"));
    words.push(String::from_str("eagle"));
    words.push(String::from_str("ember"));
    words.push(String::from_str("falcon"));
    words.push(String::from_str("forest"));
    words.push(String::from_str("garden"));
    words.push(String::from_str("glacier"));
    words.push(String::from_str("hammer"));
    words.push(String::from_str("harbor"));
    words.push(String::from_str("island"));
    words.push(String::from_str("jungle"));
    words.push(String::from_str("kettle"));
    words.push(String::from_str("ladder"));
    words.push(String::from_str("lantern"));
    words.push(String::from_str("maple"));
    words.push(String::from_str("meadow"));
    words.push(String::from_str("mirror"));
    words.push(String::from_str("north"));
    words.push(String::from_str("ocean"));
    words.push(String::from_str("orchid"));
    words.push(String::from_str("pepper"));
    words.push(String::from_str("pillow"));
    words.push(String::from_str("quartz"));
    words.push(String::from_str("river"));
    words.push(String::from_str("saddle"));
    words.push(String::from_str("timber"));
    words.push(String::from_str("violet"));
    proof {
        assert(words@.map_values(|w: String| w@) =~= english_words_spec());
    }
    words
}

/// The Polish wordlist.
pub fn polish_words() -> (words: Vec<String>)
    ensures
        words@.map_values(|w: String| w@) == polish_words_spec(),
{
    let mut words: Vec<String> = Vec::new();
    words.push(String::from_str("agrest"));
    words.push(String::from_str("balkon"));
    words.push(String::from_str("chleb"));
    words.push(String::from_str("deska"));
    words.push(String::from_str("dom"));
    words.push(String::from_str("drzewo"));
    words.push(String::from_str("dym"));
    words.push(String::from_str("gora"));
    words.push(String::from_str("granica"));
    words.push(String::from_str("jablko"));
    words.push(String::from_str("jesien"));
    words.push(String::from_str("kamien"));
    words.push(String::from_str("kino"));
    words.push(String::from_str("kogut"));
    words.push(String::from_str("komin"));
    words.push(String::from_str("kot"));
    words.push(String::from_str("krowa"));
    words.push(String::from_str("kwiat"));
    words.push(String::from_str("las"));
    words.push(String::from_str("lato"));
    words.push(String::from_str("lew"));
    words.push(String::from_str("lis"));
    words.push(String::from_str("lustro"));
    words.push(String::from_str("maslo"));
    words.push(String::from_str("miasto"));
    words.push(String::from_str("mleko"));
    words.push(String::from_str("morze"));
    words.push(String::from_str("most"));
    words.push(String::from_str("mysz"));
    words.push(String::from_str("niebo"));
    words.push(String::from_str("noc"));
    words.push(String::from_str("okno"));
    words.push(String::from_str("owca"));
    words.push(String::from_str("pies"));
    words.push(String::from_str("rzeka"));
    words.push(String::from_str("sosna"));
    proof {
        assert(words@.map_values(|w: String| w@) =~= polish_words_spec());
    }
    words
}

/// Every bundled word is a non-empty string.
pub proof fn lemma_bundled_words_nonempty()
    ensures
        forall|k: int| 0 <= k < english_words_spec().len()
            ==> #[trigger] english_words_spec()[k].len() > 0,
        forall|k: int| 0 <= k < polish_words_spec().len()
            ==> #[trigger] polish_words_spec()[k].len() > 0,
{
    reveal_strlit("about");
    reveal_strlit("acid");
    reveal_strlit("apple");
    reveal_strlit("autumn");
    reveal_strlit("basket");
    reveal_strlit("beach");
    reveal_strlit("bridge");
    reveal_strlit("candle");
    reveal_strlit("castle");
    reveal_strlit("cloud");
    reveal_strlit("copper");
    reveal_strlit("dance");
    reveal_strlit("desert");
    reveal_strlit("dragon");
    reveal_strlit("eagle");
    reveal_strlit("ember");
    reveal_strlit("falcon");
    reveal_strlit("forest");
    reveal_strlit("garden");
    reveal_strlit("glacier");
    reveal_strlit("hammer");
    reveal_strlit("harbor");
    reveal_strlit("island");
    reveal_strlit("jungle");
    reveal_strlit("kettle");
    reveal_strlit("ladder");
    reveal_strlit("lantern");
    reveal_strlit("maple");
    reveal_strlit("meadow");
    reveal_strlit("mirror");
    reveal_strlit("north");
    reveal_strlit("ocean");
    reveal_strlit("orchid");
    reveal_strlit("pepper");
    reveal_strlit("pillow");
    reveal_strlit("quartz");
    reveal_strlit("river");
    reveal_strlit("saddle");
    reveal_strlit("timber");
    reveal_strlit("violet");
    reveal_strlit("agrest");
    reveal_strlit("balkon");
    reveal_strlit("chleb");
    reveal_strlit("deska");
    reveal_strlit("dom");
    reveal_strlit("drzewo");
    reveal_strlit("dym");
    reveal_strlit("gora");
    reveal_strlit("granica");
    reveal_strlit("jablko");
    reveal_strlit("jesien");
    reveal_strlit("kamien");
    reveal_strlit("kino");
    reveal_strlit("kogut");
    reveal_strlit("komin");
    reveal_strlit("kot");
    reveal_strlit("krowa");
    reveal_strlit("kwiat");
    reveal_strlit("las");
    reveal_strlit("lato");
    reveal_strlit("lew");
    reveal_strlit("lis");
    reveal_strlit("lustro");
    reveal_strlit("maslo");
    reveal_strlit("miasto");
    reveal_strlit("mleko");
    reveal_strlit("morze");
    reveal_strlit("most");
    reveal_strlit("mysz");
    reveal_strlit("niebo");
    reveal_strlit("noc");
    reveal_strlit("okno");
    reveal_strlit("owca");
    reveal_strlit("pies");
    reveal_strlit("rzeka");
    reveal_strlit("sosna");
}

} // verus!
