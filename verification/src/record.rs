//! The airport record: one row of the reference data, every field kept as
//! the text it was sourced as.

use vstd::prelude::*;

verus! {

/// One row of the airport reference data.
#[derive(Debug, PartialEq, Eq)]
pub struct Airport {
    /// The data set's own identifier of the row.
    pub id: String,
    /// The ICAO-style identifier.
    pub ident: String,
    /// The kind of aerodrome.
    pub type_: String,
    /// The airport's name.
    pub name: String,
    /// Latitude in decimal degrees.
    pub latitude_deg: String,
    /// Longitude in decimal degrees.
    pub longitude_deg: String,
    /// Elevation in feet.
    pub elevation_ft: String,
    /// Continent code.
    pub continent: String,
    /// ISO country code.
    pub iso_country: String,
    /// ISO region code, country and subdivision joined by a hyphen.
    pub iso_region: String,
    /// The municipality served.
    pub municipality: String,
    /// `yes` where scheduled service exists, else `no`.
    pub scheduled_service: String,
    /// GPS code.
    pub gps_code: String,
    /// IATA code; may be empty.
    pub iata_code: String,
    /// Local code.
    pub local_code: String,
    /// Address of the airport's home page.
    pub home_link: String,
    /// Address of the airport's Wikipedia page.
    pub wikipedia_link: String,
    /// Free-text keywords.
    pub keywords: String,
}

/// What an [`Airport`] holds, as plain character sequences.
pub ghost struct AirportView {
    pub id: Seq<char>,
    pub ident: Seq<char>,
    pub type_: Seq<char>,
    pub name: Seq<char>,
    pub latitude_deg: Seq<char>,
    pub longitude_deg: Seq<char>,
    pub elevation_ft: Seq<char>,
    pub continent: Seq<char>,
    pub iso_country: Seq<char>,
    pub iso_region: Seq<char>,
    pub municipality: Seq<char>,
    pub scheduled_service: Seq<char>,
    pub gps_code: Seq<char>,
    pub iata_code: Seq<char>,
    pub local_code: Seq<char>,
    pub home_link: Seq<char>,
    pub wikipedia_link: Seq<char>,
    pub keywords: Seq<char>,
}

impl View for Airport {
    type V = AirportView;

    open spec fn view(&self) -> AirportView {
        AirportView {
            id: self.id@,
            ident: self.ident@,
            type_: self.type_@,
            name: self.name@,
            latitude_deg: self.latitude_deg@,
            longitude_deg: self.longitude_deg@,
            elevation_ft: self.elevation_ft@,
            continent: self.continent@,
            iso_country: self.iso_country@,
            iso_region: self.iso_region@,
            municipality: self.municipality@,
            scheduled_service: self.scheduled_service@,
            gps_code: self.gps_code@,
            iata_code: self.iata_code@,
            local_code: self.local_code@,
            home_link: self.home_link@,
            wikipedia_link: self.wikipedia_link@,
            keywords: self.keywords@,
        }
    }
}

impl Clone for Airport {
    /// A copy of the record, field by field.
    fn clone(&self) -> (copy: Self)
        ensures
            copy@ == self@,
    {
        Airport {
            id: self.id.clone(),
            ident: self.ident.clone(),
            type_: self.type_.clone(),
            name: self.name.clone(),
            latitude_deg: self.latitude_deg.clone(),
            longitude_deg: self.longitude_deg.clone(),
            elevation_ft: self.elevation_ft.clone(),
            continent: self.continent.clone(),
            iso_country: self.iso_country.clone(),
            iso_region: self.iso_region.clone(),
            municipality: self.municipality.clone(),
            scheduled_service: self.scheduled_service.clone(),
            gps_code: self.gps_code.clone(),
            iata_code: self.iata_code.clone(),
            local_code: self.local_code.clone(),
            home_link: self.home_link.clone(),
            wikipedia_link: self.wikipedia_link.clone(),
            keywords: self.keywords.clone(),
        }
    }
}

} // verus!
