use vstd::prelude::*;

verus! {

/// The workflow event that a notification reports. Rendering the message
/// text is a pure function of this kind, so contracts can speak of the kind
/// alone.
#[derive(Clone, Copy, Debug, PartialEq, Eq, Structural)]
pub enum NotificationKind {
    /// A registration was received and awaits review.
    Welcome,
    /// The supplier account was approved.
    Approved,
    /// The supplier registration was rejected and the record removed.
    RegistrationRejected,
    /// The supplier's offer was selected as the winner.
    Winner,
    /// The request the supplier bid on was closed by another winning offer.
    RequestClosed,
}

/// A pending outbound message. The authoritative state change that produced
/// it has already committed; delivery is a separate, best-effort step whose
/// failure never rolls the state change back.
#[derive(Debug)]
pub struct NotificationIntent {
    pub to: String,
    pub kind: NotificationKind,
}

impl Clone for NotificationIntent {
    fn clone(&self) -> (r: Self)
        ensures
            r == *self,
    {
        NotificationIntent { to: self.to.clone(), kind: self.kind }
    }
}

pub open spec fn subject_text(k: NotificationKind) -> Seq<char> {
    match k {
        NotificationKind::Welcome => "Registro Recibido - Portal Proveedores"@,
        NotificationKind::Approved => "Proveedor Aprobado - Portal"@,
        NotificationKind::RegistrationRejected => "Registro Rechazado"@,
        NotificationKind::Winner => "Felicidades - Ganaste la cotizacion"@,
        NotificationKind::RequestClosed => "Solicitud Cerrada"@,
    }
}

pub open spec fn body_text(k: NotificationKind) -> Seq<char> {
    match k {
        NotificationKind::Welcome => "Gracias por registrarte en nuestro portal. Tu cuenta esta en revision. En breve recibiras una respuesta."@,
        NotificationKind::Approved => "Tu cuenta ha sido aprobada. Ingresa al portal para ver solicitudes."@,
        NotificationKind::RegistrationRejected => "Lo sentimos, tu solicitud de registro como proveedor ha sido rechazada."@,
        NotificationKind::Winner => "Tu oferta ha sido seleccionada como ganadora. Procede con el pedido."@,
        NotificationKind::RequestClosed => "Gracias por tu oferta. La solicitud ha sido cerrada."@,
    }
}

impl NotificationIntent {
    /// The subject line of the rendered message.
    pub fn subject(&self) -> (r: String)
        ensures
            r@ == subject_text(self.kind),
    {
        match self.kind {
            NotificationKind::Welcome => "Registro Recibido - Portal Proveedores".to_owned(),
            NotificationKind::Approved => "Proveedor Aprobado - Portal".to_owned(),
            NotificationKind::RegistrationRejected => "Registro Rechazado".to_owned(),
            NotificationKind::Winner => "Felicidades - Ganaste la cotizacion".to_owned(),
            NotificationKind::RequestClosed => "Solicitud Cerrada".to_owned(),
        }
    }

    /// The body of the rendered message.
    pub fn body(&self) -> (r: String)
        ensures
            r@ == body_text(self.kind),
    {
        match self.kind {
            NotificationKind::Welcome => "Gracias por registrarte en nuestro portal. Tu cuenta esta en revision. En breve recibiras una respuesta.".to_owned(),
            NotificationKind::Approved => "Tu cuenta ha sido aprobada. Ingresa al portal para ver solicitudes.".to_owned(),
            NotificationKind::RegistrationRejected => "Lo sentimos, tu solicitud de registro como proveedor ha sido rechazada.".to_owned(),
            NotificationKind::Winner => "Tu oferta ha sido seleccionada como ganadora. Procede con el pedido.".to_owned(),
            NotificationKind::RequestClosed => "Gracias por tu oferta. La solicitud ha sido cerrada.".to_owned(),
        }
    }
}

} // verus!
