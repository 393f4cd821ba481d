//! Every message type of the network protocol, with its stable 16-bit id.

use vstd::prelude::*;

verus! {

/// Enum variants for all message types in the network protocol. Each
/// variant's 16-bit id (see [`protocol_id`]) is part of the wire contract
/// and never changes.
#[derive(Debug, Clone, Copy, PartialEq, Eq, Structural)]
pub enum Protocol {
    ClientHello,
    ClientHelloResp,
    ClientDisconnect,
    ClientEject,
    ClientHeartbeat,
    ClientObjectSetField,
    ClientObjectSetFields,
    ClientObjectLeaving,
    ClientObjectLeavingOwner,
    ClientEnterObjectRequired,
    ClientEnterObjectRequiredOther,
    ClientEnterObjectRequiredOwner,
    ClientEnterObjectRequiredOwnerOther,
    ClientDoneInterestResp,
    ClientAddInterest,
    ClientAddInterestMultiple,
    ClientRemoveInterest,
    ClientObjectLocation,
    CASetState,
    CASetClientID,
    CASendDatagram,
    CAEject,
    CADrop,
    CAGetNetworkAddress,
    CAGetNetworkAddressResp,
    CADeclareObject,
    CAUndeclareObject,
    CAAddSessionObject,
    CARemoveSessionObject,
    CASetFieldsSendable,
    CAOpenChannel,
    CACloseChannel,
    CAAddPostRemove,
    CAClearPostRemoves,
    CAAddInterest,
    CAAddInterestMultiple,
    CARemoveInterest,
    SSCreateObjectWithRequired,
    SSCreateObjectWithRequiredOther,
    SSDeleteAIObjects,
    SSObjectGetField,
    SSObjectGetFieldResp,
    SSObjectGetFields,
    SSObjectGetFieldsResp,
    SSObjectGetAll,
    SSObjectGetAllResp,
    SSObjectSetField,
    SSObjectSetFields,
    SSObjectDeleteFieldRAM,
    SSObjectDeleteFieldsRAM,
    SSObjectDeleteRAM,
    SSObjectSetLocation,
    SSObjectChangingLocation,
    SSObjectEnterLocationWithRequired,
    SSObjectEnterLocationWithRequiredOther,
    SSObjectGetLocation,
    SSObjectGetLocationResp,
    SSObjectSetAI,
    SSObjectChangingAI,
    SSObjectEnterAIWithRequired,
    SSObjectEnterAIWithRequiredOther,
    SSObjectGetAI,
    SSObjectGetAIResp,
    SSObjectSetOwner,
    SSObjectChangingOwner,
    SSObjectEnterOwnerWithRequired,
    SSObjectEnterOwnerWithRequiredOther,
    SSObjectGetOwner,
    SSObjectGetOwnerResp,
    SSObjectGetZoneObjects,
    SSObjectGetZonesObjects,
    SSObjectGetChildren,
    SSObjectGetZoneCount,
    SSObjectGetZoneCountResp,
    SSObjectGetZonesCount,
    SSObjectGetZonesCountResp,
    SSObjectGetChildCount,
    SSObjectGetChildCountResp,
    SSObjectDeleteZone,
    SSObjectDeleteZones,
    SSObjectDeleteChildren,
    DBSSObjectActivateWithDefaults,
    DBSSObjectActivateWithDefaultsOther,
    DBSSObjectGetActivated,
    DBSSObjectGetActivatedResp,
    DBSSObjectDeleteFieldDisk,
    DBSSObjectDeleteFieldsDisk,
    DBSSObjectDeleteDisk,
    DBCreateObject,
    DBCreateObjectResp,
    DBObjectGetField,
    DBObjectGetFieldResp,
    DBObjectGetFields,
    DBObjectGetFieldsResp,
    DBObjectGetAll,
    DBObjectGetAllResp,
    DBObjectSetField,
    DBObjectSetFields,
    DBObjectSetFieldIfEquals,
    DBObjectSetFieldIfEqualsResp,
    DBObjectSetFieldsIfEquals,
    DBObjectSetFieldsIfEqualsResp,
    DBObjectSetFieldIfEmpty,
    DBObjectSetFieldIfEmptyResp,
    DBObjectDeleteField,
    DBObjectDeleteFields,
    DBObjectDelete,
    MDAddChannel,
    MDRemoveChannel,
    MDAddRange,
    MDRemoveRange,
    MDAddPostRemove,
    MDClearPostRemoves,
    MDSetConName,
    MDSetConUrl,
    MDLogMessage,
}

/// The stable 16-bit message id of each protocol variant.
pub open spec fn protocol_id(p: Protocol) -> u16 {
    match p {
        Protocol::ClientHello => 1,
        Protocol::ClientHelloResp => 2,
        Protocol::ClientDisconnect => 3,
        Protocol::ClientEject => 4,
        Protocol::ClientHeartbeat => 5,
        Protocol::ClientObjectSetField => 120,
        Protocol::ClientObjectSetFields => 121,
        Protocol::ClientObjectLeaving => 132,
        Protocol::ClientObjectLeavingOwner => 161,
        Protocol::ClientEnterObjectRequired => 142,
        Protocol::ClientEnterObjectRequiredOther => 143,
        Protocol::ClientEnterObjectRequiredOwner => 172,
        Protocol::ClientEnterObjectRequiredOwnerOther => 173,
        Protocol::ClientDoneInterestResp => 204,
        Protocol::ClientAddInterest => 200,
        Protocol::ClientAddInterestMultiple => 201,
        Protocol::ClientRemoveInterest => 203,
        Protocol::ClientObjectLocation => 140,
        Protocol::CASetState => 1000,
        Protocol::CASetClientID => 1001,
        Protocol::CASendDatagram => 1002,
        Protocol::CAEject => 1004,
        Protocol::CADrop => 1005,
        Protocol::CAGetNetworkAddress => 1006,
        Protocol::CAGetNetworkAddressResp => 1007,
        Protocol::CADeclareObject => 1010,
        Protocol::CAUndeclareObject => 1011,
        Protocol::CAAddSessionObject => 1012,
        Protocol::CARemoveSessionObject => 1013,
        Protocol::CASetFieldsSendable => 1014,
        Protocol::CAOpenChannel => 1100,
        Protocol::CACloseChannel => 1101,
        Protocol::CAAddPostRemove => 1110,
        Protocol::CAClearPostRemoves => 1111,
        Protocol::CAAddInterest => 1200,
        Protocol::CAAddInterestMultiple => 1201,
        Protocol::CARemoveInterest => 1203,
        Protocol::SSCreateObjectWithRequired => 2000,
        Protocol::SSCreateObjectWithRequiredOther => 2001,
        Protocol::SSDeleteAIObjects => 2009,
        Protocol::SSObjectGetField => 2010,
        Protocol::SSObjectGetFieldResp => 2011,
        Protocol::SSObjectGetFields => 2012,
        Protocol::SSObjectGetFieldsResp => 2013,
        Protocol::SSObjectGetAll => 2014,
        Protocol::SSObjectGetAllResp => 2015,
        Protocol::SSObjectSetField => 2020,
        Protocol::SSObjectSetFields => 2021,
        Protocol::SSObjectDeleteFieldRAM => 2030,
        Protocol::SSObjectDeleteFieldsRAM => 2031,
        Protocol::SSObjectDeleteRAM => 2032,
        Protocol::SSObjectSetLocation => 2040,
        Protocol::SSObjectChangingLocation => 2041,
        Protocol::SSObjectEnterLocationWithRequired => 2042,
        Protocol::SSObjectEnterLocationWithRequiredOther => 2043,
        Protocol::SSObjectGetLocation => 2044,
        Protocol::SSObjectGetLocationResp => 2045,
        Protocol::SSObjectSetAI => 2050,
        Protocol::SSObjectChangingAI => 2051,
        Protocol::SSObjectEnterAIWithRequired => 2052,
        Protocol::SSObjectEnterAIWithRequiredOther => 2053,
        Protocol::SSObjectGetAI => 2054,
        Protocol::SSObjectGetAIResp => 2055,
        Protocol::SSObjectSetOwner => 2060,
        Protocol::SSObjectChangingOwner => 2061,
        Protocol::SSObjectEnterOwnerWithRequired => 2062,
        Protocol::SSObjectEnterOwnerWithRequiredOther => 2063,
        Protocol::SSObjectGetOwner => 2064,
        Protocol::SSObjectGetOwnerResp => 2065,
        Protocol::SSObjectGetZoneObjects => 2100,
        Protocol::SSObjectGetZonesObjects => 2102,
        Protocol::SSObjectGetChildren => 2104,
        Protocol::SSObjectGetZoneCount => 2110,
        Protocol::SSObjectGetZoneCountResp => 2111,
        Protocol::SSObjectGetZonesCount => 2112,
        Protocol::SSObjectGetZonesCountResp => 2113,
        Protocol::SSObjectGetChildCount => 2114,
        Protocol::SSObjectGetChildCountResp => 2115,
        Protocol::SSObjectDeleteZone => 2120,
        Protocol::SSObjectDeleteZones => 2122,
        Protocol::SSObjectDeleteChildren => 2124,
        Protocol::DBSSObjectActivateWithDefaults => 2200,
        Protocol::DBSSObjectActivateWithDefaultsOther => 2201,
        Protocol::DBSSObjectGetActivated => 2207,
        Protocol::DBSSObjectGetActivatedResp => 2208,
        Protocol::DBSSObjectDeleteFieldDisk => 2230,
        Protocol::DBSSObjectDeleteFieldsDisk => 2231,
        Protocol::DBSSObjectDeleteDisk => 2232,
        Protocol::DBCreateObject => 3000,
        Protocol::DBCreateObjectResp => 3001,
        Protocol::DBObjectGetField => 3010,
        Protocol::DBObjectGetFieldResp => 3011,
        Protocol::DBObjectGetFields => 3012,
        Protocol::DBObjectGetFieldsResp => 3013,
        Protocol::DBObjectGetAll => 3014,
        Protocol::DBObjectGetAllResp => 3015,
        Protocol::DBObjectSetField => 3020,
        Protocol::DBObjectSetFields => 3021,
        Protocol::DBObjectSetFieldIfEquals => 3022,
        Protocol::DBObjectSetFieldIfEqualsResp => 3023,
        Protocol::DBObjectSetFieldsIfEquals => 3024,
        Protocol::DBObjectSetFieldsIfEqualsResp => 3025,
        Protocol::DBObjectSetFieldIfEmpty => 3026,
        Protocol::DBObjectSetFieldIfEmptyResp => 3027,
        Protocol::DBObjectDeleteField => 3030,
        Protocol::DBObjectDeleteFields => 3031,
        Protocol::DBObjectDelete => 3032,
        Protocol::MDAddChannel => 9000,
        Protocol::MDRemoveChannel => 9001,
        Protocol::MDAddRange => 9002,
        Protocol::MDRemoveRange => 9003,
        Protocol::MDAddPostRemove => 9010,
        Protocol::MDClearPostRemoves => 9011,
        Protocol::MDSetConName => 9012,
        Protocol::MDSetConUrl => 9013,
        Protocol::MDLogMessage => 9014,
    }
}

impl Protocol {
    /// The message's 16-bit id as carried on the wire.
    pub fn value(&self) -> (r: u16)
        ensures
            r == protocol_id(*self),
    {
        match self {
            Protocol::ClientHello => 1,
            Protocol::ClientHelloResp => 2,
            Protocol::ClientDisconnect => 3,
            Protocol::ClientEject => 4,
            Protocol::ClientHeartbeat => 5,
            Protocol::ClientObjectSetField => 120,
            Protocol::ClientObjectSetFields => 121,
            Protocol::ClientObjectLeaving => 132,
            Protocol::ClientObjectLeavingOwner => 161,
            Protocol::ClientEnterObjectRequired => 142,
            Protocol::ClientEnterObjectRequiredOther => 143,
            Protocol::ClientEnterObjectRequiredOwner => 172,
            Protocol::ClientEnterObjectRequiredOwnerOther => 173,
            Protocol::ClientDoneInterestResp => 204,
            Protocol::ClientAddInterest => 200,
            Protocol::ClientAddInterestMultiple => 201,
            Protocol::ClientRemoveInterest => 203,
            Protocol::ClientObjectLocation => 140,
            Protocol::CASetState => 1000,
            Protocol::CASetClientID => 1001,
            Protocol::CASendDatagram => 1002,
            Protocol::CAEject => 1004,
            Protocol::CADrop => 1005,
            Protocol::CAGetNetworkAddress => 1006,
            Protocol::CAGetNetworkAddressResp => 1007,
            Protocol::CADeclareObject => 1010,
            Protocol::CAUndeclareObject => 1011,
            Protocol::CAAddSessionObject => 1012,
            Protocol::CARemoveSessionObject => 1013,
            Protocol::CASetFieldsSendable => 1014,
            Protocol::CAOpenChannel => 1100,
            Protocol::CACloseChannel => 1101,
            Protocol::CAAddPostRemove => 1110,
            Protocol::CAClearPostRemoves => 1111,
            Protocol::CAAddInterest => 1200,
            Protocol::CAAddInterestMultiple => 1201,
            Protocol::CARemoveInterest => 1203,
            Protocol::SSCreateObjectWithRequired => 2000,
            Protocol::SSCreateObjectWithRequiredOther => 2001,
            Protocol::SSDeleteAIObjects => 2009,
            Protocol::SSObjectGetField => 2010,
            Protocol::SSObjectGetFieldResp => 2011,
            Protocol::SSObjectGetFields => 2012,
            Protocol::SSObjectGetFieldsResp => 2013,
            Protocol::SSObjectGetAll => 2014,
            Protocol::SSObjectGetAllResp => 2015,
            Protocol::SSObjectSetField => 2020,
            Protocol::SSObjectSetFields => 2021,
            Protocol::SSObjectDeleteFieldRAM => 2030,
            Protocol::SSObjectDeleteFieldsRAM => 2031,
            Protocol::SSObjectDeleteRAM => 2032,
            Protocol::SSObjectSetLocation => 2040,
            Protocol::SSObjectChangingLocation => 2041,
            Protocol::SSObjectEnterLocationWithRequired => 2042,
            Protocol::SSObjectEnterLocationWithRequiredOther => 2043,
            Protocol::SSObjectGetLocation => 2044,
            Protocol::SSObjectGetLocationResp => 2045,
            Protocol::SSObjectSetAI => 2050,
            Protocol::SSObjectChangingAI => 2051,
            Protocol::SSObjectEnterAIWithRequired => 2052,
            Protocol::SSObjectEnterAIWithRequiredOther => 2053,
            Protocol::SSObjectGetAI => 2054,
            Protocol::SSObjectGetAIResp => 2055,
            Protocol::SSObjectSetOwner => 2060,
            Protocol::SSObjectChangingOwner => 2061,
            Protocol::SSObjectEnterOwnerWithRequired => 2062,
            Protocol::SSObjectEnterOwnerWithRequiredOther => 2063,
            Protocol::SSObjectGetOwner => 2064,
            Protocol::SSObjectGetOwnerResp => 2065,
            Protocol::SSObjectGetZoneObjects => 2100,
            Protocol::SSObjectGetZonesObjects => 2102,
            Protocol::SSObjectGetChildren => 2104,
            Protocol::SSObjectGetZoneCount => 2110,
            Protocol::SSObjectGetZoneCountResp => 2111,
            Protocol::SSObjectGetZonesCount => 2112,
            Protocol::SSObjectGetZonesCountResp => 2113,
            Protocol::SSObjectGetChildCount => 2114,
            Protocol::SSObjectGetChildCountResp => 2115,
            Protocol::SSObjectDeleteZone => 2120,
            Protocol::SSObjectDeleteZones => 2122,
            Protocol::SSObjectDeleteChildren => 2124,
            Protocol::DBSSObjectActivateWithDefaults => 2200,
            Protocol::DBSSObjectActivateWithDefaultsOther => 2201,
            Protocol::DBSSObjectGetActivated => 2207,
            Protocol::DBSSObjectGetActivatedResp => 2208,
            Protocol::DBSSObjectDeleteFieldDisk => 2230,
            Protocol::DBSSObjectDeleteFieldsDisk => 2231,
            Protocol::DBSSObjectDeleteDisk => 2232,
            Protocol::DBCreateObject => 3000,
            Protocol::DBCreateObjectResp => 3001,
            Protocol::DBObjectGetField => 3010,
            Protocol::DBObjectGetFieldResp => 3011,
            Protocol::DBObjectGetFields => 3012,
            Protocol::DBObjectGetFieldsResp => 3013,
            Protocol::DBObjectGetAll => 3014,
            Protocol::DBObjectGetAllResp => 3015,
            Protocol::DBObjectSetField => 3020,
            Protocol::DBObjectSetFields => 3021,
            Protocol::DBObjectSetFieldIfEquals => 3022,
            Protocol::DBObjectSetFieldIfEqualsResp => 3023,
            Protocol::DBObjectSetFieldsIfEquals => 3024,
            Protocol::DBObjectSetFieldsIfEqualsResp => 3025,
            Protocol::DBObjectSetFieldIfEmpty => 3026,
            Protocol::DBObjectSetFieldIfEmptyResp => 3027,
            Protocol::DBObjectDeleteField => 3030,
            Protocol::DBObjectDeleteFields => 3031,
            Protocol::DBObjectDelete => 3032,
            Protocol::MDAddChannel => 9000,
            Protocol::MDRemoveChannel => 9001,
            Protocol::MDAddRange => 9002,
            Protocol::MDRemoveRange => 9003,
            Protocol::MDAddPostRemove => 9010,
            Protocol::MDClearPostRemoves => 9011,
            Protocol::MDSetConName => 9012,
            Protocol::MDSetConUrl => 9013,
            Protocol::MDLogMessage => 9014,
        }
    }
}

} // verus!
