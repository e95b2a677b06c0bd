//! Manufacturer names for hardware addresses, from `mac_oui`'s database.
//!
//! A database that could not be loaded is a valid state: every lookup on it
//! finds nothing.

use vstd::prelude::*;
use mac_oui::Oui;

verus! {

/// `mac_oui`'s database. Nothing is known of what one holds but what a lookup
/// on it returns.
#[verifier::external_type_specification]
#[verifier::external_body]
pub struct ExOui(mac_oui::Oui);

/// What `Oui::lookup_by_mac` returns on a database for an address text: the
/// company name of the entry found, no entry, or the text of its error.
pub uninterp spec fn oui_lookup(db: Oui, mac: Seq<char>) -> Result<Option<Seq<char>>, Seq<char>>;

/// A lookup result with its strings as sequences of characters.
pub open spec fn lookup_view(found: Result<Option<String>, String>) -> Result<
    Option<Seq<char>>,
    Seq<char>,
> {
    match found {
        Ok(Some(name)) => Ok(Some(name@)),
        Ok(None) => Ok(None),
        Err(message) => Err(message@),
    }
}

/// The vendor that a lookup result stands for: the company name where an
/// entry was found, nothing where none was or the lookup failed.
pub open spec fn spec_vendor_from_lookup(found: Result<Option<Seq<char>>, Seq<char>>) -> Option<
    Seq<char>,
> {
    match found {
        Ok(Some(name)) => Some(name),
        _ => None,
    }
}

/// An optional string as an optional sequence of characters.
pub open spec fn text_view(text: Option<String>) -> Option<Seq<char>> {
    match text {
        Some(t) => Some(t@),
        None => None,
    }
}

/// `Oui::default`: the database that ships with `mac_oui`, or its error text.
#[verifier::external_body]
fn oui_default() -> Result<Oui, String> {
    Oui::default()
}

/// `Oui::lookup_by_mac`, with the company name copied out of the entry found.
#[verifier::external_body]
fn oui_lookup_by_mac(db: &Oui, mac: &str) -> (found: Result<Option<String>, String>)
    ensures
        lookup_view(found) == oui_lookup(*db, mac@),
{
    match db.lookup_by_mac(mac) {
        Ok(Some(entry)) => Ok(Some(entry.company_name.clone())),
        Ok(None) => Ok(None),
        Err(message) => Err(message),
    }
}

/// The vendor that a lookup result stands for.
pub fn vendor_from_lookup(found: Result<Option<String>, String>) -> (vendor: Option<String>)
    ensures
        text_view(vendor) == spec_vendor_from_lookup(lookup_view(found)),
{
    match found {
        Ok(Some(name)) => Some(name),
        Ok(None) => None,
        Err(_) => None,
    }
}

/// The vendor database, or its absence.
pub struct VendorDb {
    db: Option<Oui>,
}

impl VendorDb {
    /// Whether a database is loaded.
    pub closed spec fn available(&self) -> bool {
        self.db is Some
    }

    /// The vendor of an address text: what the database's lookup stands for,
    /// and nothing where no database is loaded.
    pub closed spec fn vendor(&self, mac: Seq<char>) -> Option<Seq<char>> {
        match self.db {
            Some(db) => spec_vendor_from_lookup(oui_lookup(db, mac)),
            None => None,
        }
    }

    /// Loads the database that ships with `mac_oui`. Where that fails the
    /// result is the unavailable database.
    pub fn load() -> (db: VendorDb)
        ensures
            exists|loaded: Result<Oui, String>| db == #[trigger] VendorDb::after_load(loaded),
    {
        let loaded = oui_default();
        let db = VendorDb::from_loaded(loaded);
        assert(db == VendorDb::after_load(loaded));
        db
    }

    /// What a load leaves behind: the database that was loaded, or, where
    /// the load failed, the database on which every lookup finds nothing.
    pub closed spec fn after_load(loaded: Result<Oui, String>) -> VendorDb {
        match loaded {
            Ok(shipped) => VendorDb { db: Some(shipped) },
            Err(_) => VendorDb { db: None },
        }
    }

    /// Makes the vendor database of what a load returned: a loaded database
    /// is kept and answers every lookup; a failed load is no failure here and
    /// leaves the database on which every lookup finds nothing.
    pub fn from_loaded(loaded: Result<Oui, String>) -> (db: VendorDb)
        ensures
            db == VendorDb::after_load(loaded),
            db.available() <==> loaded is Ok,
            forall|mac: Seq<char>| #[trigger]
                db.vendor(mac) == (match loaded {
                    Ok(shipped) => spec_vendor_from_lookup(oui_lookup(shipped, mac)),
                    Err(_) => None,
                }),
    {
        match loaded {
            Ok(shipped) => VendorDb { db: Some(shipped) },
            Err(_) => VendorDb { db: None },
        }
    }

    /// The database on which every lookup finds nothing.
    pub fn unavailable() -> (db: VendorDb)
        ensures
            !db.available(),
            forall|mac: Seq<char>| db.vendor(mac) is None,
    {
        VendorDb { db: None }
    }

    /// Whether a database is loaded.
    pub fn is_available(&self) -> (r: bool)
        ensures
            r == self.available(),
    {
        self.db.is_some()
    }

    /// The vendor of a hardware address given as text, such as
    /// `00:1C:B3:00:00:00`.
    pub fn lookup(&self, mac: &str) -> (vendor: Option<String>)
        ensures
            text_view(vendor) == self.vendor(mac@),
            !self.available() ==> vendor is None,
    {
        match &self.db {
            Some(db) => vendor_from_lookup(oui_lookup_by_mac(db, mac)),
            None => None,
        }
    }
}

/// What a load leaves behind is available exactly where the load succeeded,
/// and answers a lookup as the loaded database does.
pub proof fn lemma_after_load(loaded: Result<Oui, String>, mac: Seq<char>)
    ensures
        VendorDb::after_load(loaded).available() <==> loaded is Ok,
        VendorDb::after_load(loaded).vendor(mac) == (match loaded {
            Ok(shipped) => spec_vendor_from_lookup(oui_lookup(shipped, mac)),
            Err(_) => None,
        }),
{
}

/// On a database that is not available every lookup finds nothing.
pub proof fn lemma_unavailable_finds_nothing(db: VendorDb, mac: Seq<char>)
    requires
        !db.available(),
    ensures
        db.vendor(mac) is None,
{
}

/// The vendor of a hardware address given as text, looked up in the database
/// that ships with `mac_oui`; nothing where the database cannot be loaded, the
/// text is no hardware address, or no entry covers it.
pub fn lookup_vendor(mac: &str) -> (vendor: Option<String>)
    ensures
        exists|db: VendorDb| #[trigger] db.vendor(mac@) == text_view(vendor),
        vendor is Some ==> exists|db: VendorDb|
            db.available() && #[trigger] db.vendor(mac@) == text_view(vendor),
{
    let db = VendorDb::load();
    let vendor = db.lookup(mac);
    vendor
}

} // verus!
