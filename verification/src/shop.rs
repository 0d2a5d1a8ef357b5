//! Shop-vertical records: the customer response shape and shop-logo
//! metadata.
use vstd::prelude::*;

verus! {

/// API response for a customer record; `id` is the UUID as text.
#[derive(Debug, Clone)]
pub struct CustomerResponse {
    pub id: String,
    pub company_name: Option<String>,
    pub display_name: String,
    pub email: Option<String>,
    pub phone: Option<String>,
    pub address_line1: Option<String>,
    pub address_line2: Option<String>,
    pub city: Option<String>,
    pub state: Option<String>,
    pub postal_code: Option<String>,
    pub country: Option<String>,
    pub notes: Option<String>,
    pub portal_enabled: bool,
    pub portal_user_id: Option<String>,
    pub tax_exempt: bool,
    pub tax_exemption_certificate_path: Option<String>,
    pub tax_exemption_expires_at: Option<String>,
    pub payment_terms: Option<String>,
    pub credit_limit_cents: Option<i64>,
    pub stripe_customer_id: Option<String>,
    pub quickbooks_customer_id: Option<String>,
    pub lead_source: Option<String>,
    pub tags: Option<String>,
    pub created_at: String,
    pub updated_at: String,
    pub deleted_at: Option<String>,
}

/// Logo metadata of the shop from its settings row (`logo_extension`,
/// `logo_epoch`): present only when the row exists and both columns are
/// set.
pub fn logo_info_from_row(row: Option<(Option<String>, Option<i64>)>) -> (r: Option<(String, i64)>)
    ensures
        match row {
            Some((Some(ext), Some(ts))) => r matches Some((e, t)) && e == ext && t == ts,
            _ => r is None,
        },
{
    match row {
        Some((Some(ext), Some(ts))) => Some((ext, ts)),
        _ => None,
    }
}

/// Upsert of the logo columns of the shop-settings singleton (parameters:
/// extension, epoch).
pub const UPSERT_LOGO_SQL: &'static str = "INSERT INTO shop_settings (id, shop_name, logo_extension, logo_epoch)
         VALUES (1, '', ?, ?)
         ON CONFLICT(id) DO UPDATE SET
           logo_extension = excluded.logo_extension,
           logo_epoch = excluded.logo_epoch";

/// Clearing of the logo columns of the shop-settings singleton.
pub const DELETE_LOGO_SQL: &'static str = "UPDATE shop_settings
            SET logo_extension = NULL, logo_epoch = NULL
          WHERE id = 1";

/// Read of the logo columns of the shop-settings singleton.
pub const SELECT_LOGO_SQL: &'static str = "SELECT logo_extension, logo_epoch FROM shop_settings WHERE id = 1";

/// Activity-log action recorded when a logo is uploaded.
pub const LOGO_UPLOADED_ACTION: &'static str = "shop_logo_uploaded";

/// Activity-log action recorded when the logo is removed.
pub const LOGO_DELETED_ACTION: &'static str = "shop_logo_deleted";

} // verus!
