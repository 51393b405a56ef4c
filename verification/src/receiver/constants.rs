//! IDN protocol constants under the names the receiver uses.

pub use crate::protocols::idn::protocol::IDNCMD_RT_ACKNOWLEDGE as IDNCMD_RT_ACK;
pub use crate::protocols::idn::protocol::{
    IDNCMD_PING_REQUEST, IDNCMD_PING_RESPONSE, IDNCMD_RT_CNLMSG, IDNCMD_RT_CNLMSG_ACKREQ,
    IDNCMD_RT_CNLMSG_CLOSE, IDNCMD_RT_CNLMSG_CLOSE_ACKREQ, IDNCMD_SCAN_REQUEST,
    IDNCMD_SCAN_RESPONSE, IDNCMD_SERVICEMAP_REQUEST, IDNCMD_SERVICEMAP_RESPONSE,
    IDNCMD_SERVICE_PARAMS_REQUEST, IDNCMD_SERVICE_PARAMS_RESPONSE, IDNCMD_UNIT_PARAMS_REQUEST,
    IDNCMD_UNIT_PARAMS_RESPONSE,
};

// Service types
pub use crate::protocols::idn::protocol::{IDNVAL_STYPE_DMX512, IDNVAL_STYPE_LAPRO};

// RT-ACK result codes
pub use crate::protocols::idn::protocol::{
    IDNVAL_RTACK_ERR_EMPTY_CLOSE, IDNVAL_RTACK_ERR_EXCLUDED, IDNVAL_RTACK_ERR_INVALID_PAYLOAD,
    IDNVAL_RTACK_ERR_OCCUPIED, IDNVAL_RTACK_ERR_PROCESSING_ERROR,
};

// Service map flags
pub use crate::protocols::idn::protocol::IDNFLG_SERVICEMAP_DSID;

// Default port
pub use crate::protocols::idn::protocol::IDN_PORT;

// Status byte flags for scan responses.
pub use crate::protocols::idn::protocol::IDNFLG_SCAN_STATUS_EXCLUDED as IDNFLG_STATUS_EXCLUDED;
pub use crate::protocols::idn::protocol::IDNFLG_SCAN_STATUS_MALFUNCTION as IDNFLG_STATUS_MALFUNCTION;
pub use crate::protocols::idn::protocol::IDNFLG_SCAN_STATUS_OCCUPIED as IDNFLG_STATUS_OCCUPIED;
pub use crate::protocols::idn::protocol::IDNFLG_SCAN_STATUS_OFFLINE as IDNFLG_STATUS_OFFLINE;
pub use crate::protocols::idn::protocol::IDNFLG_SCAN_STATUS_REALTIME as IDNFLG_STATUS_REALTIME;
